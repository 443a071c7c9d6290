//! The state of the panels of the debugger: the instructions with their
//! cursor and breakpoints, the stack, the registers, the outputs and the
//! status. Drawing them is left to the program that shows them.
use vstd::prelude::*;

use super::enums::{OpCodes, OperandType};
use super::instruction::Instruction;
use super::machine::VirtualMachine;
use crate::text::{string_chars, string_from_chars};

verus! {

/// A key pressed in the debugger.
#[derive(Debug, Clone, Copy, PartialEq, Eq, Structural)]
pub enum AppKey {
    Char(char),
    Up,
    Down,
    PageUp,
    PageDown,
    Tab,
    Esc,
    Other,
}

/// The panel of the instructions: the first instruction shown, the line of
/// the cursor, whether the cursor follows `CIP`, and the breakpoints.
pub struct InstructionsBlock {
    offset: usize,
    cursor_position: i32,
    follow_cip: bool,
    breakpoints: Vec<usize>,
}

/// The mathematical value of an [`InstructionsBlock`].
pub struct InstructionsView {
    pub offset: usize,
    pub cursor_position: i32,
    pub follow_cip: bool,
    pub breakpoints: Seq<usize>,
}

impl View for InstructionsBlock {
    type V = InstructionsView;

    closed spec fn view(&self) -> InstructionsView {
        InstructionsView {
            offset: self.offset,
            cursor_position: self.cursor_position,
            follow_cip: self.follow_cip,
            breakpoints: self.breakpoints@,
        }
    }
}

/// Whether an instruction jumps or calls.
pub open spec fn is_jump(op: OpCodes) -> bool {
    op == OpCodes::JMP || op == OpCodes::JZ || op == OpCodes::JNZ || op == OpCodes::JP || op
        == OpCodes::JN || op == OpCodes::CALL
}

/// Where the instruction under the cursor jumps, when it jumps to a literal
/// offset: the cursor's line plus the offset of the panel plus that literal.
pub open spec fn jump_target_of(v: InstructionsView, shown: Seq<(usize, Instruction)>) -> Option<int> {
    if 0 <= v.cursor_position < shown.len() {
        let i = shown[v.cursor_position as int].1;
        if is_jump(i.opcode) {
            match i.operand_1 {
                OperandType::Literal { value } => Some(v.cursor_position + (v.offset as i32) + value),
                _ => None,
            }
        } else {
            None
        }
    } else {
        None
    }
}

/// The mark drawn beside the line `idx` for a jump to `target`: a bar between
/// the cursor and the target, a corner at each end, else a space.
pub open spec fn jump_mark_of(v: InstructionsView, idx: usize, target: Option<usize>) -> Seq<char> {
    match target {
        Some(t) => {
            let here: int = (v.cursor_position as usize) + v.offset;
            let low: int = if here < t { here } else { t as int };
            let high: int = if here < t { t as int } else { here };
            if idx > low && idx < high {
                "|"@
            } else if idx == t {
                if t > (v.cursor_position as usize) { "└"@ } else { "┌"@ }
            } else if idx == here {
                if t > (v.cursor_position as usize) { "┌"@ } else { "└"@ }
            } else {
                " "@
            }
        },
        None => " "@,
    }
}

/// The panel after a key: the cursor moves up and down by one, by ten a page,
/// unless it follows `CIP`; `f` toggles following `CIP`.
pub open spec fn instructions_after_key(v: InstructionsView, key: AppKey) -> InstructionsView {
    match key {
        AppKey::Down if !v.follow_cip => InstructionsView { cursor_position: (v.cursor_position + 1) as i32, ..v },
        AppKey::Up if !v.follow_cip => InstructionsView { cursor_position: (v.cursor_position - 1) as i32, ..v },
        AppKey::PageDown if !v.follow_cip => InstructionsView {
            cursor_position: (v.cursor_position + 10) as i32,
            ..v
        },
        AppKey::PageUp if !v.follow_cip => InstructionsView {
            cursor_position: (v.cursor_position - 10) as i32,
            ..v
        },
        AppKey::Char('f') => InstructionsView { follow_cip: !v.follow_cip, ..v },
        _ => v,
    }
}

/// How far the stack panel is scrolled after a key: down by one, or up by one
/// down to the top.
pub open spec fn stack_offset_after_key(offset: usize, key: AppKey) -> int {
    match key {
        AppKey::Down => offset + 1,
        AppKey::Up => if offset > 0 { offset - 1 } else { 0 },
        _ => offset as int,
    }
}

/// The offset of the panel once the cursor has left it by the top or by the
/// bottom of a panel of `height` lines.
pub open spec fn scrolled_offset(v: InstructionsView, height: u16) -> int {
    let o1: int = if v.cursor_position < 0 {
        if (v.offset as i32) - 1 > 0 { (v.offset as i32) - 1 } else { 0 }
    } else {
        v.offset as int
    };
    if v.cursor_position > height - 3 {
        if (o1 as i32) + 1 > 0 { (o1 as i32) + 1 } else { 0 }
    } else {
        o1
    }
}

impl InstructionsBlock {
    /// A panel at the first instruction, with no breakpoint.
    pub fn new() -> (r: InstructionsBlock)
        ensures
            r@ == (InstructionsView {
                offset: 0,
                cursor_position: 0,
                follow_cip: false,
                breakpoints: seq![],
            }),
    {
        InstructionsBlock { offset: 0, cursor_position: 0, follow_cip: false, breakpoints: Vec::new() }
    }

    /// The index of the instruction under the cursor.
    pub fn get_selected_cip(&self) -> (r: usize)
        requires
            self@.offset + (if self@.cursor_position > 0 { self@.cursor_position as int } else { 0 })
                <= usize::MAX,
        ensures
            r == self@.offset + (if self@.cursor_position > 0 { self@.cursor_position as int } else { 0 }),
    {
        let c: usize = if self.cursor_position > 0 { self.cursor_position as usize } else { 0 };
        self.offset + c
    }

    /// Replaces the breakpoints.
    pub fn update_breakpoints(&mut self, bp: Vec<usize>)
        ensures
            final(self)@ == (InstructionsView { breakpoints: bp@, ..old(self)@ }),
    {
        self.breakpoints = bp;
    }

    /// The first instruction shown.
    pub fn offset(&self) -> (r: usize)
        ensures
            r == self@.offset,
    {
        self.offset
    }

    /// The line of the cursor.
    pub fn cursor_position(&self) -> (r: i32)
        ensures
            r == self@.cursor_position,
    {
        self.cursor_position
    }

    /// Whether the cursor follows `CIP`.
    pub fn follow_cip(&self) -> (r: bool)
        ensures
            r == self@.follow_cip,
    {
        self.follow_cip
    }

    /// Whether there is a breakpoint at `idx`.
    pub fn has_breakpoint(&self, idx: usize) -> (r: bool)
        ensures
            r == self@.breakpoints.contains(idx),
    {
        let mut i: usize = 0;
        while i < self.breakpoints.len()
            invariant
                i <= self.breakpoints.len(),
                forall|j: int| 0 <= j < i ==> self.breakpoints@[j] != idx,
            decreases self.breakpoints.len() - i,
        {
            if self.breakpoints[i] == idx {
                return true;
            }
            i = i + 1;
        }
        false
    }

    /// Moves the cursor: up and down by one, by ten a page, unless it follows
    /// `CIP`; `f` toggles following `CIP`.
    pub fn on_key(&mut self, key: AppKey)
        requires
            -0x8000_0000 + 10 <= old(self)@.cursor_position <= 0x7fff_ffff - 10,
        ensures
            final(self)@ == instructions_after_key(old(self)@, key),
    {
        match key {
            AppKey::Down if !self.follow_cip => self.cursor_position = self.cursor_position + 1,
            AppKey::Up if !self.follow_cip => self.cursor_position = self.cursor_position - 1,
            AppKey::PageDown if !self.follow_cip => self.cursor_position = self.cursor_position + 10,
            AppKey::PageUp if !self.follow_cip => self.cursor_position = self.cursor_position - 10,
            AppKey::Char('f') => self.follow_cip = !self.follow_cip,
            _ => {},
        }
    }

    /// Where the instruction under the cursor jumps, when it jumps to a
    /// literal offset (see [`jump_target_of`]).
    pub fn get_jump_index(&self, instructions: &Vec<(usize, Instruction)>) -> (r: Option<usize>)
        requires
            jump_target_of(self@, instructions@) matches Some(t) ==> i32::MIN <= t <= i32::MAX
                && i32::MIN <= self@.cursor_position + (self@.offset as i32) <= i32::MAX,
        ensures
            r == (match jump_target_of(self@, instructions@) {
                Some(t) => Some((t as i32) as usize),
                None => None,
            }),
    {
        if self.cursor_position >= 0 && (self.cursor_position as usize) < instructions.len() {
            let i = instructions[self.cursor_position as usize].1;
            match i.opcode {
                OpCodes::JMP | OpCodes::JZ | OpCodes::JNZ | OpCodes::JP | OpCodes::JN | OpCodes::CALL => {
                    match i.operand_1 {
                        OperandType::Literal { value } => {
                            let t = self.cursor_position + self.offset as i32 + value;
                            Some(t as usize)
                        },
                        _ => None,
                    }
                },
                _ => None,
            }
        } else {
            None
        }
    }

    /// The mark beside the line `idx` for a jump to `target` (see [`jump_mark_of`]).
    pub fn display_jump(&self, idx: usize, target: Option<usize>) -> (r: &'static str)
        requires
            target is Some ==> (self@.cursor_position as usize) + self@.offset <= usize::MAX,
        ensures
            r@ == jump_mark_of(self@, idx, target),
    {
        match target {
            Some(t) => {
                let here = self.cursor_position as usize + self.offset;
                let low = if here < t { here } else { t };
                let high = if here < t { t } else { here };
                if idx > low && idx < high {
                    "|"
                } else if idx == t {
                    if t > self.cursor_position as usize { "└" } else { "┌" }
                } else if idx == here {
                    if t > self.cursor_position as usize { "┌" } else { "└" }
                } else {
                    " "
                }
            },
            None => " ",
        }
    }

    /// Scrolls the panel for a height of `height` lines before it is drawn:
    /// the offset follows a cursor that left the panel, the cursor follows
    /// `CIP` when asked and stays on a shown instruction; the instructions
    /// shown are returned.
    pub fn scroll(&mut self, machine: &VirtualMachine, height: u16) -> (r: Vec<(usize, Instruction)>)
        requires
            old(self)@.offset < 0x7fff_fffe,
            old(self)@.follow_cip ==> machine.wf() && i32::MIN <= machine@.registers[5]
                - scrolled_offset(old(self)@, height) <= i32::MAX,
        ensures
            final(self)@.offset == scrolled_offset(old(self)@, height),
            final(self)@.follow_cip == old(self)@.follow_cip,
            final(self)@.breakpoints == old(self)@.breakpoints,
            match machine@.program {
                Some(p) => r@.len() == (if final(self)@.offset >= p.len() { 0 } else if height < p.len() - final(self)@.offset { height as int } else { p.len() - final(self)@.offset })
                    && forall|k: int| 0 <= k < r@.len() ==> r@[k] == ((final(self)@.offset + k) as usize, p[final(self)@.offset + k]),
                None => r@.len() == 0,
            },
            ({
                let c0 = if old(self)@.follow_cip { machine@.registers[5] - final(self)@.offset } else { old(self)@.cursor_position as int };
                let c1 = if c0 < height - 3 { c0 } else { height - 3 };
                let c2 = if c1 > 0 { c1 } else { 0 };
                final(self)@.cursor_position == (if c2 < r@.len() - 1 { c2 } else { r@.len() - 1 })
            }),
    {
        let h: i32 = height as i32;
        if self.cursor_position < 0 {
            let o = self.offset as i32 - 1;
            self.offset = if o > 0 { o as usize } else { 0 };
        }
        if self.cursor_position > h - 3 {
            let o = self.offset as i32 + 1;
            self.offset = if o > 0 { o as usize } else { 0 };
        }
        if self.follow_cip {
            self.cursor_position = machine.get_cip() - self.offset as i32;
        }
        let c = if self.cursor_position < h - 3 { self.cursor_position } else { h - 3 };
        self.cursor_position = if c > 0 { c } else { 0 };
        let instructions = machine.get_instruction_slice(self.offset, height as usize);
        let last = instructions.len() as i32 - 1;
        if last < self.cursor_position {
            self.cursor_position = last;
        }
        instructions
    }
}

/// The panel of the stack: how far it is scrolled, and the slot last written.
pub struct StackBlock {
    offset: usize,
    most_recently_modified: Option<usize>,
}

impl StackBlock {
    /// A panel at the top of the stack.
    pub fn new() -> (r: StackBlock)
        ensures
            r.offset() == 0,
            r.most_recently_modified() is None,
    {
        StackBlock { offset: 0, most_recently_modified: None }
    }

    /// How far the panel is scrolled.
    pub closed spec fn spec_offset(&self) -> usize {
        self.offset
    }

    /// How far the panel is scrolled.
    #[verifier::when_used_as_spec(spec_offset)]
    pub fn offset(&self) -> (r: usize)
        ensures
            r == self.spec_offset(),
    {
        self.offset
    }

    /// The slot last written, if known.
    pub closed spec fn spec_most_recently_modified(&self) -> Option<usize> {
        self.most_recently_modified
    }

    /// The slot last written, if known.
    #[verifier::when_used_as_spec(spec_most_recently_modified)]
    pub fn most_recently_modified(&self) -> (r: Option<usize>)
        ensures
            r == self.spec_most_recently_modified(),
    {
        self.most_recently_modified
    }

    /// Scrolls the panel: down by one, or up by one down to the top.
    pub fn on_key(&mut self, key: AppKey)
        requires
            old(self).offset() < 0x7fff_ffff,
        ensures
            final(self).most_recently_modified() == old(self).most_recently_modified(),
            final(self).offset() == stack_offset_after_key(old(self).offset(), key),
    {
        match key {
            AppKey::Down => self.offset = self.offset + 1,
            AppKey::Up => {
                let o = self.offset as i32 - 1;
                self.offset = if o > 0 { o as usize } else { 0 };
            },
            _ => {},
        }
    }
}

/// Whether a slot lies in the first slots above the base of the frame.
pub open spec fn near_base(idx: usize, sbp: i32) -> bool {
    idx > sbp as usize && idx < (sbp + 5) as usize
}

/// Whether a slot lies between the top and the base of the frame.
pub open spec fn inside_frame(idx: usize, sbp: i32, tsp: i32) -> bool {
    idx < sbp as usize && idx > tsp as usize
}

/// The notes beside a stack slot: where the base and the top of the frame
/// are, and how far a slot is from the base.
pub open spec fn stack_notes_of(idx: usize, sbp: i32, tsp: i32) -> Seq<Seq<char>> {
    let at_sbp = if idx == sbp as usize { seq![" < SBP"@] } else { seq![] };
    let at_tsp = if idx == tsp as usize { seq![" < TSP"@] } else { seq![] };
    let d = (idx as i32) - sbp;
    let above = if near_base(idx, sbp) {
        seq![" <"@, " SBP "@ + two_digits(d)] + if d == 1 { seq![" <= Return pointer"@] } else { seq![] }
    } else {
        seq![]
    };
    let below = if inside_frame(idx, sbp, tsp) {
        seq![" <"@, " SBP "@ + two_digits(d)]
    } else {
        seq![]
    };
    at_sbp + at_tsp + above + below
}

/// A number on at least two characters, a zero before a single digit.
pub open spec fn two_digits(d: int) -> Seq<char> {
    if 0 <= d < 10 {
        "0"@ + crate::text::int_chars(d)
    } else {
        crate::text::int_chars(d)
    }
}

/// The notes beside the stack slot `idx` (see [`stack_notes_of`]).
pub fn stack_notes(idx: usize, sbp: i32, tsp: i32) -> (r: Vec<String>)
    requires
        idx > sbp as usize ==> sbp + 5 <= i32::MAX,
        near_base(idx, sbp) || inside_frame(idx, sbp, tsp) ==> i32::MIN < (idx as i32) - sbp <= i32::MAX,
    ensures
        r@.map_values(|s: String| s@) == stack_notes_of(idx, sbp, tsp),
{
    let mut notes: Vec<Vec<char>> = Vec::new();
    if idx == sbp as usize {
        notes.push(crate::text::str_chars(" < SBP"));
    }
    if idx == tsp as usize {
        notes.push(crate::text::str_chars(" < TSP"));
    }
    if idx > sbp as usize && idx < (sbp + 5) as usize {
        let d: i32 = idx as i32 - sbp;
        notes.push(crate::text::str_chars(" <"));
        let mut t = crate::text::str_chars(" SBP ");
        push_two_digits(&mut t, d);
        notes.push(t);
        if d == 1 {
            notes.push(crate::text::str_chars(" <= Return pointer"));
        }
    }
    if idx < sbp as usize && idx > tsp as usize {
        let d: i32 = idx as i32 - sbp;
        notes.push(crate::text::str_chars(" <"));
        let mut t = crate::text::str_chars(" SBP ");
        push_two_digits(&mut t, d);
        notes.push(t);
    }
    let mut r: Vec<String> = Vec::new();
    let mut i: usize = 0;
    while i < notes.len()
        invariant
            i <= notes.len(),
            r@.map_values(|s: String| s@) == notes@.map_values(|v: Vec<char>| v@).take(i as int),
        decreases notes.len() - i,
    {
        let ghost prev = r@;
        r.push(string_from_chars(&notes[i]));
        assert(r@.map_values(|s: String| s@) =~= prev.map_values(|s: String| s@).push(notes@[i as int]@));
        assert(notes@.map_values(|v: Vec<char>| v@).take(i + 1) =~= notes@.map_values(|v: Vec<char>| v@).take(i as int).push(notes@[i as int]@));
        i = i + 1;
    }
    assert(notes@.map_values(|v: Vec<char>| v@).take(notes.len() as int) =~= notes@.map_values(|v: Vec<char>| v@));
    assert(notes@.map_values(|v: Vec<char>| v@) =~= stack_notes_of(idx, sbp, tsp));
    r
}

fn push_two_digits(out: &mut Vec<char>, d: i32)
    requires
        d > i32::MIN,
    ensures
        final(out)@ == old(out)@ + two_digits(d as int),
{
    if 0 <= d && d < 10 {
        let ghost start = out@;
        out.push('0');
        crate::text::push_int_chars(out, d as i64);
        proof {
            reveal_strlit("0");
        }
        assert(out@ =~= start + two_digits(d as int));
    } else {
        crate::text::push_int_chars(out, d as i64);
    }
}

/// The panel of the registers and flags.
pub struct RegisterBlock {
    most_recently_modified: Option<usize>,
}

impl RegisterBlock {
    /// A panel with no register marked.
    pub fn new() -> (r: RegisterBlock)
        ensures
            r.most_recently_modified() is None,
    {
        RegisterBlock { most_recently_modified: None }
    }

    /// The register last written, if known.
    pub closed spec fn spec_most_recently_modified(&self) -> Option<usize> {
        self.most_recently_modified
    }

    /// The register last written, if known.
    #[verifier::when_used_as_spec(spec_most_recently_modified)]
    pub fn most_recently_modified(&self) -> (r: Option<usize>)
        ensures
            r == self.spec_most_recently_modified(),
    {
        self.most_recently_modified
    }
}

/// The panel of the outputs: all that the machine printed, in order.
pub struct MachineOutputBlock {
    output: Vec<String>,
}

impl View for MachineOutputBlock {
    type V = Seq<Seq<char>>;

    closed spec fn view(&self) -> Seq<Seq<char>> {
        self.output@.map_values(|s: String| s@)
    }
}

impl MachineOutputBlock {
    /// A panel with no output.
    pub fn new() -> (r: MachineOutputBlock)
        ensures
            r@ == Seq::<Seq<char>>::empty(),
    {
        let r = MachineOutputBlock { output: Vec::new() };
        assert(r@ =~= Seq::<Seq<char>>::empty());
        r
    }

    /// Records what the last step of the machine printed, if it printed.
    pub fn record(&mut self, machine: &VirtualMachine)
        ensures
            final(self)@ == (match machine@.output {
                Some(o) => old(self)@.push(o),
                None => old(self)@,
            }),
    {
        if let Some(o) = machine.get_current_output() {
            let ghost prev = self.output@;
            self.output.push(o);
            assert(self.output@.map_values(|s: String| s@) =~= prev.map_values(|s: String| s@).push(o@));
        }
    }

    /// The last `height` outputs, in order.
    pub fn last_lines(&self, height: usize) -> (r: Vec<String>)
        ensures
            r@.map_values(|s: String| s@) == self@.skip(
                if self@.len() > height { self@.len() - height } else { 0 },
            ),
    {
        let start: usize = if self.output.len() > height { self.output.len() - height } else { 0 };
        let ghost all = self@;
        let mut r: Vec<String> = Vec::new();
        let mut i: usize = start;
        while i < self.output.len()
            invariant
                start <= i <= self.output.len(),
                all == self@,
                r@.map_values(|s: String| s@) == all.subrange(start as int, i as int),
            decreases self.output.len() - i,
        {
            let ghost prev = r@;
            r.push(string_from_chars(&string_chars(&self.output[i])));
            assert(r@.map_values(|s: String| s@) =~= prev.map_values(|s: String| s@).push(all[i as int]));
            assert(all.subrange(start as int, i + 1) =~= all.subrange(start as int, i as int).push(all[i as int]));
            i = i + 1;
        }
        assert(all.subrange(start as int, self.output.len() as int) =~= all.skip(start as int));
        r
    }
}

/// The panel of the machine's status.
pub struct MachineStatusBlock;

impl MachineStatusBlock {
    /// The panel.
    pub fn new() -> (r: MachineStatusBlock) {
        MachineStatusBlock
    }
}

} // verus!
