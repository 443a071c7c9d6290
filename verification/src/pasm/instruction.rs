//! Pseudo-assembly instructions.
use vstd::prelude::*;

use super::operand_type::{names_memory, names_register, operand_text, push_operand_text, OperandType, OperandView};
use crate::lexer::token::TokenLocation;
use crate::text::{
    extend_chars, int_chars, push_int_chars, starts_with_char, str_chars, string_chars,
    string_equals, string_from_chars, string_starts_with,
};

verus! {

/// A pseudo-assembly instruction: a label, a comment, or an opcode with up to
/// two operands; with the place in the source it was generated for, when known.
#[derive(Debug)]
pub struct PASMInstruction {
    pub is_label: bool,
    pub is_comment: bool,
    pub opcode: String,
    pub operands: Vec<OperandType>,
    pub span: Option<TokenLocation>,
}

/// The mathematical value of a [`PASMInstruction`].
pub struct InstrView {
    pub is_label: bool,
    pub is_comment: bool,
    pub opcode: Seq<char>,
    pub operands: Seq<OperandView>,
    pub span: Option<TokenLocation>,
}

/// The values of a list of operands.
pub open spec fn operands_view(s: Seq<OperandType>) -> Seq<OperandView> {
    s.map_values(|o: OperandType| o@)
}

/// The values of a list of instructions.
pub open spec fn instrs_view(s: Seq<PASMInstruction>) -> Seq<InstrView> {
    s.map_values(|i: PASMInstruction| i@)
}

impl View for PASMInstruction {
    type V = InstrView;

    open spec fn view(&self) -> InstrView {
        InstrView {
            is_label: self.is_label,
            is_comment: self.is_comment,
            opcode: self.opcode@,
            operands: operands_view(self.operands@),
            span: self.span,
        }
    }
}

/// An instruction with the given opcode and operands.
pub open spec fn op(opcode: Seq<char>, operands: Seq<OperandView>) -> InstrView {
    InstrView { is_label: false, is_comment: false, opcode, operands, span: None }
}

/// A label.
pub open spec fn label(name: Seq<char>) -> InstrView {
    InstrView { is_label: true, is_comment: false, opcode: name, operands: seq![], span: None }
}

/// The variable of the stack frame that the `i`-th operand names, if it does:
/// an identifier that names no register and no memory value.
pub open spec fn frame_name_at(operands: Seq<OperandView>, i: int) -> Seq<Seq<char>> {
    if 0 <= i < operands.len() {
        match operands[i] {
            OperandView::Identifier { name } => if !names_register(operands[i]) && !names_memory(
                operands[i],
            ) {
                seq![name]
            } else {
                seq![]
            },
            _ => seq![],
        }
    } else {
        seq![]
    }
}

/// The frame variables an instruction reads (live) and writes (dead): `load`,
/// `pop` and `mov` read their second operand and write their first; the
/// arithmetic instructions, `cmp`, `store` and `push` read both.
pub open spec fn live_and_dead(i: InstrView) -> (Seq<Seq<char>>, Seq<Seq<char>>) {
    let op0 = frame_name_at(i.operands, 0);
    let op1 = frame_name_at(i.operands, 1);
    let o = i.opcode;
    if o == "load"@ || o == "pop"@ || o == "mov"@ {
        (op1, op0)
    } else if o == "add"@ || o == "sub"@ || o == "mul"@ || o == "div"@ || o == "mod"@ || o
        == "cmp"@ || o == "store"@ || o == "push"@ {
        (op0 + op1, seq![])
    } else {
        (seq![], seq![])
    }
}

/// The label a jump or a call goes to: the name of its first operand.
pub open spec fn jump_target(i: InstrView) -> Option<Seq<char>> {
    if starts_with_char(i.opcode, 'j') || i.opcode == "call"@ {
        if i.operands.len() > 0 && i.operands[0] is Identifier {
            Some(i.operands[0]->Identifier_name)
        } else {
            None
        }
    } else {
        None
    }
}

/// How an instruction prints an operand: a space, then the operand; a variable
/// naming a register or a memory value prints its name as it is.
pub open spec fn inline_operand_text(o: OperandView) -> Seq<char> {
    match o {
        OperandView::Identifier { name } => if starts_with_char(name, '$') || starts_with_char(
            name,
            '\'',
        ) {
            " "@ + name
        } else {
            " @"@ + name
        },
        _ => " "@ + operand_text(o),
    }
}

/// The operands of an instruction, as it prints them.
pub open spec fn operands_text(s: Seq<OperandView>) -> Seq<char>
    decreases s.len(),
{
    if s.len() == 0 {
        seq![]
    } else {
        operands_text(s.drop_last()) + inline_operand_text(s.last())
    }
}

/// The text of an instruction: `name:` for a label, `; text` for a comment,
/// else the opcode and its operands.
pub open spec fn instruction_text(i: InstrView) -> Seq<char> {
    if i.is_label {
        i.opcode + ":"@
    } else if i.is_comment {
        "; "@ + i.opcode
    } else {
        i.opcode + operands_text(i.operands)
    }
}

fn frame_name(operands: &Vec<OperandType>, i: usize) -> (r: Vec<String>)
    ensures
        r@.map_values(|s: String| s@) == frame_name_at(operands_view(operands@), i as int),
{
    let mut r: Vec<String> = Vec::new();
    if i < operands.len() {
        match &operands[i] {
            OperandType::Identifier { name } => {
                if !string_starts_with(name, '$') && !string_starts_with(name, '\'') {
                    r.push(name.clone());
                }
            },
            _ => {},
        }
    }
    assert(r@.map_values(|s: String| s@) =~= frame_name_at(operands_view(operands@), i as int));
    r
}

impl PASMInstruction {
    /// A label named `name`.
    pub fn new_label(name: String) -> (r: PASMInstruction)
        ensures
            r@ == label(name@),
    {
        let r = PASMInstruction {
            is_label: true,
            is_comment: false,
            opcode: name,
            operands: Vec::new(),
            span: None,
        };
        assert(operands_view(r.operands@) =~= seq![]);
        r
    }

    /// A comment.
    pub fn new_comment(comment: String) -> (r: PASMInstruction)
        ensures
            r@ == (InstrView {
                is_label: false,
                is_comment: true,
                opcode: comment@,
                operands: seq![],
                span: None,
            }),
    {
        let r = PASMInstruction {
            is_label: false,
            is_comment: true,
            opcode: comment,
            operands: Vec::new(),
            span: None,
        };
        assert(operands_view(r.operands@) =~= seq![]);
        r
    }

    /// An instruction with the given opcode and operands.
    pub fn new(instr: String, operands: Vec<OperandType>) -> (r: PASMInstruction)
        ensures
            r@ == op(instr@, operands_view(operands@)),
    {
        PASMInstruction { is_label: false, is_comment: false, opcode: instr, operands, span: None }
    }

    /// The frame variables this instruction reads, and those it writes.
    pub fn get_live_and_dead(&self) -> (r: (Vec<String>, Vec<String>))
        ensures
            r.0@.map_values(|s: String| s@) == live_and_dead(self@).0,
            r.1@.map_values(|s: String| s@) == live_and_dead(self@).1,
    {
        let mut operand_0 = frame_name(&self.operands, 0);
        let operand_1 = frame_name(&self.operands, 1);
        let o = &self.opcode;
        if string_equals(o, "load") || string_equals(o, "pop") || string_equals(o, "mov") {
            (operand_1, operand_0)
        } else if string_equals(o, "add") || string_equals(o, "sub") || string_equals(o, "mul")
            || string_equals(o, "div") || string_equals(o, "mod") || string_equals(o, "cmp")
            || string_equals(o, "store") || string_equals(o, "push") {
            let ghost a = operand_0@;
            let mut i: usize = 0;
            while i < operand_1.len()
                invariant
                    i <= operand_1.len(),
                    operand_0@ == a + operand_1@.take(i as int),
                decreases operand_1.len() - i,
            {
                operand_0.push(operand_1[i].clone());
                i = i + 1;
                assert(operand_0@ =~= a + operand_1@.take(i as int));
            }
            assert(operand_1@.take(operand_1.len() as int) =~= operand_1@);
            assert(operand_0@.map_values(|s: String| s@) =~= a.map_values(|s: String| s@)
                + operand_1@.map_values(|s: String| s@));
            let empty: Vec<String> = Vec::new();
            assert(empty@.map_values(|s: String| s@) =~= seq![]);
            (operand_0, empty)
        } else {
            let e0: Vec<String> = Vec::new();
            let e1: Vec<String> = Vec::new();
            assert(e0@.map_values(|s: String| s@) =~= seq![]);
            assert(e1@.map_values(|s: String| s@) =~= seq![]);
            (e0, e1)
        }
    }

    /// The label this instruction jumps to or calls, if it is a jump or a call.
    pub fn jump_to(&self) -> (r: Option<String>)
        ensures
            match jump_target(self@) {
                Some(n) => (r matches Some(s) && s@ == n),
                None => r is None,
            },
    {
        if string_starts_with(&self.opcode, 'j') || string_equals(&self.opcode, "call") {
            if self.operands.len() > 0 {
                match &self.operands[0] {
                    OperandType::Identifier { name } => {
                        return Some(name.clone());
                    },
                    _ => {},
                }
            }
        }
        None
    }

    /// A copy of this instruction.
    pub fn duplicate(&self) -> (r: PASMInstruction)
        ensures
            r@ == self@,
    {
        let mut operands: Vec<OperandType> = Vec::new();
        let mut i: usize = 0;
        while i < self.operands.len()
            invariant
                i <= self.operands.len(),
                operands_view(operands@) == operands_view(self.operands@).take(i as int),
            decreases self.operands.len() - i,
        {
            let d = self.operands[i].duplicate();
            let ghost before = operands@;
            operands.push(d);
            assert(operands_view(operands@) =~= operands_view(before).push(d@));
            assert(operands_view(self.operands@).take(i + 1) =~= operands_view(self.operands@).take(
                i as int,
            ).push(self.operands@[i as int]@));
            i = i + 1;
        }
        assert(operands_view(self.operands@).take(self.operands.len() as int) =~= operands_view(
            self.operands@,
        ));
        PASMInstruction {
            is_label: self.is_label,
            is_comment: self.is_comment,
            opcode: self.opcode.clone(),
            operands,
            span: self.span,
        }
    }

    /// The text of this instruction, as [`instruction_text`] gives it.
    pub fn to_string(&self) -> (r: String)
        ensures
            r@ == instruction_text(self@),
    {
        let mut out = string_chars(&self.opcode);
        if self.is_label {
            out.push(':');
            proof {
                reveal_strlit(":");
            }
        } else if self.is_comment {
            let mut c = str_chars("; ");
            extend_chars(&mut c, &out);
            out = c;
        } else {
            let ghost ops = operands_view(self.operands@);
            let ghost head = out@;
            let mut i: usize = 0;
            while i < self.operands.len()
                invariant
                    i <= self.operands.len(),
                    ops == operands_view(self.operands@),
                    out@ == head + operands_text(ops.take(i as int)),
                decreases self.operands.len() - i,
            {
                assert(ops.take(i + 1).drop_last() =~= ops.take(i as int));
                push_inline_operand(&self.operands[i], &mut out);
                i = i + 1;
            }
            assert(ops.take(self.operands.len() as int) =~= ops);
        }
        string_from_chars(&out)
    }
}

fn push_inline_operand(o: &OperandType, out: &mut Vec<char>)
    ensures
        final(out)@ == old(out)@ + inline_operand_text(o@),
{
    match o {
        OperandType::Identifier { name } => {
            if string_starts_with(name, '$') || string_starts_with(name, '\'') {
                out.push(' ');
            } else {
                out.push(' ');
                out.push('@');
            }
            extend_chars(out, &string_chars(name));
        },
        _ => {
            out.push(' ');
            push_operand_text(o, out);
        },
    }
    proof {
        reveal_strlit(" ");
        reveal_strlit(" @");
    }
}

/// What an instruction reads and writes of the frame variables it names. An
/// arithmetic instruction (`add`, `sub`, `mul`, `div`, `mod`), `cmp`,
/// `store` and `push` read both operands and write none: in particular the
/// variable an arithmetic instruction updates is read by it, so its value is
/// live before it. `mov`, `load` and `pop` read their second operand and write
/// their first (which they do not read unless it is also the second).
pub proof fn lemma_reads_and_writes(i: InstrView, name: Seq<char>)
    ensures
        ({
            let o = i.opcode;
            (o == "add"@ || o == "sub"@ || o == "mul"@ || o == "div"@ || o == "mod"@ || o
                == "cmp"@ || o == "store"@ || o == "push"@) ==> {
                &&& (frame_name_at(i.operands, 0) == seq![name] ==> live_and_dead(i).0.contains(
                    name,
                ))
                &&& (frame_name_at(i.operands, 1) == seq![name] ==> live_and_dead(i).0.contains(
                    name,
                ))
                &&& live_and_dead(i).1.len() == 0
            }
        }),
        ({
            let o = i.opcode;
            (o == "mov"@ || o == "load"@ || o == "pop"@) ==> {
                &&& (frame_name_at(i.operands, 0) == seq![name] ==> live_and_dead(i).1.contains(
                    name,
                ))
                &&& (frame_name_at(i.operands, 1) == seq![name] ==> live_and_dead(i).0.contains(
                    name,
                ))
                &&& (live_and_dead(i).0.contains(name) ==> frame_name_at(i.operands, 1) == seq![
                    name,
                ])
            }
        }),
{
    reveal_strlit("add");
    reveal_strlit("sub");
    reveal_strlit("mul");
    reveal_strlit("div");
    reveal_strlit("mod");
    reveal_strlit("cmp");
    reveal_strlit("store");
    reveal_strlit("push");
    reveal_strlit("mov");
    reveal_strlit("load");
    reveal_strlit("pop");
    let o = i.opcode;
    let op0 = frame_name_at(i.operands, 0);
    let op1 = frame_name_at(i.operands, 1);
    if o == "add"@ || o == "sub"@ || o == "mul"@ || o == "div"@ || o == "mod"@ || o == "cmp"@
        || o == "store"@ || o == "push"@ {
        assert(o != "load"@ && o != "pop"@ && o != "mov"@) by {
            assert(o.len() == 3 ==> (o[0] != "load"@[0] || o.len() != 4));
            if o.len() == 3 {
                assert(o[0] != "pop"@[0] || o[1] != "pop"@[1]);
                assert(o[0] != "mov"@[0] || o[1] != "mov"@[1] || o[2] != "mov"@[2]);
            }
            if o.len() == 4 {
                assert(o[0] != "load"@[0]);
            }
        }
        if op0 == seq![name] {
            assert((op0 + op1)[0] == name);
        }
        if op1 == seq![name] {
            assert((op0 + op1)[op0.len() as int] == name);
        }
    } else if o == "mov"@ || o == "load"@ || o == "pop"@ {
        if op0 == seq![name] {
            assert(op0[0] == name);
        }
        if op1 == seq![name] {
            assert(op1[0] == name);
        }
        if live_and_dead(i).0.contains(name) {
            let k = choose|k: int| 0 <= k < op1.len() && op1[k] == name;
            assert(op1.len() == 1);
        }
    }
}

} // verus!
