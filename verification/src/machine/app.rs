//! The state of the debugger: the machine it runs, whether it runs freely or
//! step by step, the panels and the breakpoints, and how keys change them.
use vstd::prelude::*;

use super::blocks::{
    instructions_after_key, stack_offset_after_key, AppKey, InstructionsBlock, InstructionsView,
    MachineOutputBlock, MachineStatusBlock, RegisterBlock, StackBlock,
};
use super::machine::{result_view, VirtualMachine};
use super::enums::MachineStatus;
use super::step::{step, VMState};
use crate::text::{extend_chars, str_chars, string_chars, string_from_chars};

verus! {

/// What the debugger is doing: waiting, stepping on request, running until
/// a breakpoint, or stopped on an error.
#[derive(Debug)]
pub enum AppStatus {
    Ready,
    Ticking,
    Continuing,
    Error(String),
}

/// The mathematical value of an [`AppStatus`].
pub enum AppStatusView {
    Ready,
    Ticking,
    Continuing,
    Error(Seq<char>),
}

impl View for AppStatus {
    type V = AppStatusView;

    open spec fn view(&self) -> AppStatusView {
        match self {
            AppStatus::Ready => AppStatusView::Ready,
            AppStatus::Ticking => AppStatusView::Ticking,
            AppStatus::Continuing => AppStatusView::Continuing,
            AppStatus::Error(e) => AppStatusView::Error(e@),
        }
    }
}

impl Default for AppStatus {
    fn default() -> (r: Self)
        ensures
            r@ == AppStatusView::Ready,
    {
        AppStatus::Ready
    }
}

/// The text of a status: its name, or `Error: ` and the message.
pub open spec fn status_text(s: AppStatusView) -> Seq<char> {
    match s {
        AppStatusView::Ready => "Ready"@,
        AppStatusView::Ticking => "Ticking"@,
        AppStatusView::Continuing => "Continuing"@,
        AppStatusView::Error(e) => "Error: "@ + e,
    }
}

impl AppStatus {
    /// The text of the status, as [`status_text`] gives it.
    pub fn to_string(&self) -> (r: String)
        ensures
            r@ == status_text(self@),
    {
        match self {
            AppStatus::Ready => string_from_chars(&str_chars("Ready")),
            AppStatus::Ticking => string_from_chars(&str_chars("Ticking")),
            AppStatus::Continuing => string_from_chars(&str_chars("Continuing")),
            AppStatus::Error(e) => {
                let mut out = str_chars("Error: ");
                extend_chars(&mut out, &string_chars(e));
                string_from_chars(&out)
            },
        }
    }
}

/// The first position of `x` among the first `n` breakpoints.
pub open spec fn first_position(s: Seq<usize>, x: usize, n: int) -> Option<int>
    decreases n,
{
    if n <= 0 || n > s.len() {
        None
    } else {
        match first_position(s, x, n - 1) {
            Some(p) => Some(p),
            None => if s[n - 1] == x {
                Some(n - 1)
            } else {
                None
            },
        }
    }
}

/// The breakpoints with `x` taken out when it is one, added at the end when
/// it is not.
pub open spec fn toggled(s: Seq<usize>, x: usize) -> Seq<usize> {
    match first_position(s, x, s.len() as int) {
        Some(p) => s.remove(p),
        None => s.push(x),
    }
}

/// Stepping becomes running and running stepping; other states stay.
pub open spec fn toggled_status(s: AppStatusView) -> AppStatusView {
    match s {
        AppStatusView::Continuing => AppStatusView::Ticking,
        AppStatusView::Ticking => AppStatusView::Continuing,
        _ => s,
    }
}

/// Switching twice between stepping and running comes back to where it was.
pub proof fn lemma_continue_twice(s: AppStatusView)
    ensures
        toggled_status(toggled_status(s)) == s,
{
}

/// Setting a breakpoint that was not set and then clearing it gives back the
/// breakpoints as they were.
pub proof fn lemma_breakpoint_set_then_cleared(s: Seq<usize>, x: usize)
    requires
        !s.contains(x),
    ensures
        toggled(toggled(s, x), x) == s,
{
    lemma_first_position_absent(s, x, s.len() as int);
    let t = s.push(x);
    assert(t.subrange(0, s.len() as int) =~= s);
    lemma_first_position_prefix(t, x, s.len() as int);
    assert(t.remove(s.len() as int) =~= s);
}

/// A value that is not among the first `n` is found at no position there.
proof fn lemma_first_position_absent(s: Seq<usize>, x: usize, n: int)
    requires
        0 <= n <= s.len(),
        forall|k: int| 0 <= k < n ==> s[k] != x,
    ensures
        first_position(s, x, n) is None,
    decreases n,
{
    if n > 0 {
        lemma_first_position_absent(s, x, n - 1);
    }
}

/// In a list ending with `x` and holding it nowhere else, `x` is found last.
proof fn lemma_first_position_prefix(t: Seq<usize>, x: usize, n: int)
    requires
        n == t.len() - 1,
        n >= 0,
        t[n] == x,
        forall|k: int| 0 <= k < n ==> t[k] != x,
    ensures
        first_position(t, x, t.len() as int) == Some(n),
{
    lemma_first_position_absent(t, x, n);
}

/// The status after a step that gave `r`: the error when it failed.
pub open spec fn status_after(s: AppStatusView, r: Result<(), Seq<char>>) -> AppStatusView {
    match r {
        Ok(()) => s,
        Err(e) => AppStatusView::Error(e),
    }
}

/// The debugger.
pub struct App {
    pub title: String,
    pub should_quit: bool,
    pub machine: VirtualMachine,
    pub status: AppStatus,
    /// The panel that keys go to: instructions, stack, registers, outputs or status.
    pub selected_block: usize,
    pub blocks: (InstructionsBlock, StackBlock, RegisterBlock, MachineOutputBlock, MachineStatusBlock),
    pub breakpoints: Vec<usize>,
}

impl App {
    /// A debugger of `machine`, waiting, with the instructions selected and no
    /// breakpoint.
    pub fn new(title: &str, machine: VirtualMachine) -> (r: App)
        ensures
            r.title@ == title@,
            !r.should_quit,
            r.machine == machine,
            r.status@ == AppStatusView::Ready,
            r.selected_block == 0,
            r.blocks.0@ == (InstructionsView {
                offset: 0,
                cursor_position: 0,
                follow_cip: false,
                breakpoints: seq![],
            }),
            r.blocks.1.offset() == 0,
            r.blocks.1.most_recently_modified() is None,
            r.blocks.2.most_recently_modified() is None,
            r.blocks.3@ == Seq::<Seq<char>>::empty(),
            r.breakpoints@ == Seq::<usize>::empty(),
    {
        App {
            title: string_from_chars(&str_chars(title)),
            should_quit: false,
            machine,
            status: AppStatus::default(),
            selected_block: 0,
            blocks: (
                InstructionsBlock::new(),
                StackBlock::new(),
                RegisterBlock::new(),
                MachineOutputBlock::new(),
                MachineStatusBlock::new(),
            ),
            breakpoints: Vec::new(),
        }
    }

    /// One step of the machine, unless its program has completed; a failing
    /// step sets the error as the status.
    pub fn on_tick(&mut self)
        requires
            old(self).machine.wf(),
            step(old(self).machine@) is Some,
        ensures
            final(self).machine.wf(),
            final(self).should_quit == old(self).should_quit,
            final(self).selected_block == old(self).selected_block,
            final(self).breakpoints == old(self).breakpoints,
            final(self).title == old(self).title,
            final(self).blocks == old(self).blocks,
            old(self).machine@.status == MachineStatus::Complete ==> final(self).machine@ == old(self).machine@
                && final(self).status == old(self).status,
            old(self).machine@.status != MachineStatus::Complete ==> ({
                let (s, r) = step(old(self).machine@)->0;
                final(self).machine@ == s && final(self).status@ == status_after(old(self).status@, r)
            }),
    {
        if !self.machine.has_completed() {
            match self.machine.tick() {
                Ok(_) => {},
                Err(e) => {
                    self.status = AppStatus::Error(e);
                },
            }
        }
    }

    /// Selects the next panel, after the last the first.
    pub fn on_next_block(&mut self)
        requires
            old(self).selected_block < usize::MAX,
        ensures
            final(self).selected_block == (old(self).selected_block + 1) % 5,
            final(self).machine == old(self).machine,
            final(self).status == old(self).status,
            final(self).breakpoints == old(self).breakpoints,
            final(self).blocks == old(self).blocks,
            final(self).should_quit == old(self).should_quit,
    {
        self.selected_block = (self.selected_block + 1) % 5;
    }

    /// Switches between stepping and running; in any other state nothing
    /// changes.
    pub fn on_continue(&mut self)
        ensures
            final(self).status@ == toggled_status(old(self).status@),
            final(self).machine == old(self).machine,
            final(self).breakpoints == old(self).breakpoints,
            final(self).blocks == old(self).blocks,
            final(self).selected_block == old(self).selected_block,
            final(self).should_quit == old(self).should_quit,
    {
        match self.status {
            AppStatus::Continuing => {
                self.status = AppStatus::Ticking;
            },
            AppStatus::Ticking => {
                self.status = AppStatus::Continuing;
            },
            _ => {},
        }
    }

    /// While running: stops at a breakpoint on `CIP`, else runs one step; a
    /// failing step sets the error as the status.
    pub fn update(&mut self)
        requires
            old(self).machine.wf(),
            old(self).status@ is Continuing && !old(self).breakpoints@.contains(
                old(self).machine@.registers[5] as usize,
            ) ==> step(old(self).machine@) is Some,
        ensures
            final(self).machine.wf(),
            final(self).breakpoints == old(self).breakpoints,
            final(self).blocks == old(self).blocks,
            final(self).selected_block == old(self).selected_block,
            final(self).should_quit == old(self).should_quit,
            !(old(self).status@ is Continuing) ==> final(self).machine@ == old(self).machine@
                && final(self).status == old(self).status,
            old(self).status@ is Continuing && old(self).breakpoints@.contains(
                old(self).machine@.registers[5] as usize,
            ) ==> final(self).machine@ == old(self).machine@ && final(self).status@
                == AppStatusView::Ticking,
            old(self).status@ is Continuing && !old(self).breakpoints@.contains(
                old(self).machine@.registers[5] as usize,
            ) ==> ({
                let (s, r) = step(old(self).machine@)->0;
                final(self).machine@ == s && final(self).status@ == status_after(AppStatusView::Continuing, r)
            }),
    {
        if let AppStatus::Continuing = self.status {
            let cip = self.machine.get_cip() as usize;
            if contains(&self.breakpoints, cip) {
                self.on_continue();
                return;
            }
            if let Err(e) = self.machine.tick() {
                self.status = AppStatus::Error(e);
            }
        }
    }

    /// Asks the debugger to quit.
    pub fn on_quit(&mut self)
        ensures
            final(self).should_quit,
            final(self).machine == old(self).machine,
            final(self).status == old(self).status,
            final(self).breakpoints == old(self).breakpoints,
            final(self).blocks == old(self).blocks,
            final(self).selected_block == old(self).selected_block,
    {
        self.should_quit = true;
    }

    /// A key: `b` sets or clears a breakpoint on the instruction under the
    /// cursor; any other key goes to the selected panel.
    pub fn on_key(&mut self, key: AppKey)
        requires
            old(self).selected_block < 5,
            key == AppKey::Char('b') ==> old(self).blocks.0@.offset + (if old(
                self,
            ).blocks.0@.cursor_position > 0 {
                old(self).blocks.0@.cursor_position as int
            } else {
                0
            }) <= usize::MAX,
            key != AppKey::Char('b') && old(self).selected_block == 0 ==> -0x8000_0000 + 10
                <= old(self).blocks.0@.cursor_position <= 0x7fff_ffff - 10,
            key != AppKey::Char('b') && old(self).selected_block == 1 ==> old(self).blocks.1.offset()
                < 0x7fff_ffff,
        ensures
            final(self).machine == old(self).machine,
            final(self).status == old(self).status,
            final(self).selected_block == old(self).selected_block,
            final(self).should_quit == old(self).should_quit,
            key == AppKey::Char('b') ==> ({
                let index = (old(self).blocks.0@.offset + (if old(self).blocks.0@.cursor_position > 0 {
                    old(self).blocks.0@.cursor_position as int
                } else {
                    0
                })) as usize;
                &&& final(self).breakpoints@ == toggled(old(self).breakpoints@, index)
                &&& final(self).blocks.0@ == (InstructionsView {
                    breakpoints: toggled(old(self).breakpoints@, index),
                    ..old(self).blocks.0@
                })
            }),
            key != AppKey::Char('b') ==> final(self).breakpoints == old(self).breakpoints,
            key != AppKey::Char('b') && old(self).selected_block == 0 ==> final(self).blocks.0@
                == instructions_after_key(old(self).blocks.0@, key) && final(self).blocks.1
                == old(self).blocks.1,
            key != AppKey::Char('b') && old(self).selected_block == 1 ==> final(self).blocks.1.offset()
                == stack_offset_after_key(old(self).blocks.1.offset(), key)
                && final(self).blocks.1.most_recently_modified() == old(
                self,
            ).blocks.1.most_recently_modified() && final(self).blocks.0 == old(self).blocks.0,
            key != AppKey::Char('b') && old(self).selected_block >= 2 ==> final(self).blocks
                == old(self).blocks,
            final(self).blocks.2 == old(self).blocks.2,
            final(self).blocks.3 == old(self).blocks.3,
            key == AppKey::Char('b') ==> final(self).blocks.1 == old(self).blocks.1,
    {
        match key {
            AppKey::Char('b') => {
                let index = self.blocks.0.get_selected_cip();
                match position(&self.breakpoints, index) {
                    Some(p) => {
                        self.breakpoints.remove(p);
                    },
                    None => {
                        self.breakpoints.push(index);
                    },
                }
                let copy = copy_indexes(&self.breakpoints);
                self.blocks.0.update_breakpoints(copy);
            },
            _ => {
                if self.selected_block == 0 {
                    self.blocks.0.on_key(key);
                } else if self.selected_block == 1 {
                    self.blocks.1.on_key(key);
                }
            },
        }
    }
}

/// Whether `x` is one of `s`.
fn contains(s: &Vec<usize>, x: usize) -> (r: bool)
    ensures
        r == s@.contains(x),
{
    let mut i: usize = 0;
    while i < s.len()
        invariant
            i <= s.len(),
            forall|j: int| 0 <= j < i ==> s@[j] != x,
        decreases s.len() - i,
    {
        if s[i] == x {
            return true;
        }
        i = i + 1;
    }
    false
}

/// The first position of `x` in `s`, as [`first_position`] gives it.
fn position(s: &Vec<usize>, x: usize) -> (r: Option<usize>)
    ensures
        r matches Some(p) ==> p < s@.len() && first_position(s@, x, s@.len() as int) == Some(p as int),
        r is None ==> first_position(s@, x, s@.len() as int) is None,
{
    let mut i: usize = 0;
    while i < s.len()
        invariant
            i <= s.len(),
            first_position(s@, x, i as int) is None,
        decreases s.len() - i,
    {
        if s[i] == x {
            proof {
                lemma_first_position_stays(s@, x, i + 1, s@.len() as int);
            }
            return Some(i);
        }
        i = i + 1;
    }
    None
}

/// Once found among the first `j`, a position is the one found among more.
proof fn lemma_first_position_stays(s: Seq<usize>, x: usize, j: int, k: int)
    requires
        0 <= j <= k <= s.len(),
        first_position(s, x, j) is Some,
    ensures
        first_position(s, x, k) == first_position(s, x, j),
    decreases k - j,
{
    if k > j {
        lemma_first_position_stays(s, x, j, k - 1);
    }
}

fn copy_indexes(s: &Vec<usize>) -> (r: Vec<usize>)
    ensures
        r@ == s@,
{
    let mut r: Vec<usize> = Vec::new();
    let mut i: usize = 0;
    while i < s.len()
        invariant
            i <= s.len(),
            r@ == s@.take(i as int),
        decreases s.len() - i,
    {
        r.push(s[i]);
        i = i + 1;
        assert(r@ =~= s@.take(i as int));
    }
    assert(s@.take(s.len() as int) =~= s@);
    r
}

} // verus!
