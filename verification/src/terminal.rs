use vstd::prelude::*;

use crate::cell::{cell_eq, opt_color_eq, Cell, TermColor};
use crate::frame::{spec_blank_cell, Frame};

verus! {

/// One terminal control step: clear, move the cursor, change an
/// attribute, or write a glyph. `SetFg(None)` and `SetBg(None)` reset
/// the respective color to the terminal default.
#[derive(Clone, Copy, Debug, PartialEq, Eq, Structural)]
pub enum TermCmd {
    ClearAll,
    MoveTo(u16, u16),
    SetFg(Option<TermColor>),
    SetBg(Option<TermColor>),
    SetBold(bool),
    Print(char),
    ResetAttributes,
    ResetColors,
}

/// The attribute state the writer believes the terminal is in:
/// foreground, background, bold.
pub struct AttrState {
    pub fg: Option<TermColor>,
    pub bg: Option<TermColor>,
    pub bold: bool,
}

/// The commands that bring one changed cell at `(x, y)` onto the screen
/// from attribute state `st`: a cursor move, the attribute changes the
/// cell needs — and only those — and the glyph.
pub open spec fn spec_cell_cmds(cell: Cell, st: AttrState, x: u16, y: u16) -> Seq<TermCmd> {
    seq![TermCmd::MoveTo(x, y)] + (if cell.fg != st.fg {
        seq![TermCmd::SetFg(cell.fg)]
    } else {
        Seq::empty()
    }) + (if cell.bg != st.bg {
        seq![TermCmd::SetBg(cell.bg)]
    } else {
        Seq::empty()
    }) + (if cell.bold != st.bold {
        seq![TermCmd::SetBold(cell.bold)]
    } else {
        Seq::empty()
    }) + seq![TermCmd::Print(cell.ch)]
}

/// Whether the writer must rewrite cell `i`: always under a full
/// redraw, else when the retained frame disagrees there.
pub open spec fn spec_cell_changed(last: Option<Frame>, cur: Frame, full: bool, i: int) -> bool {
    ||| full
    ||| match last {
        Some(l) => !(0 <= i < l.cells@.len() && l.cells@[i] == cur.cells@[i]),
        None => true,
    }
}

/// The commands and attribute state after diffing the first `k` cells
/// of `cur` against the retained frame: changed cells emit their
/// command group and leave the terminal in their attributes, unchanged
/// cells emit nothing.
pub open spec fn spec_plan_upto(
    last: Option<Frame>,
    cur: Frame,
    full: bool,
    k: int,
    st: AttrState,
) -> (Seq<TermCmd>, AttrState)
    decreases k,
{
    if k <= 0 {
        (Seq::empty(), st)
    } else {
        let prefix = spec_plan_upto(last, cur, full, k - 1, st);
        let i = k - 1;
        if spec_cell_changed(last, cur, full, i) {
            let cell = cur.cells@[i];
            let x = (i % cur.width as int) as u16;
            let y = (i / cur.width as int) as u16;
            (
                prefix.0 + spec_cell_cmds(cell, prefix.1, x, y),
                AttrState { fg: cell.fg, bg: cell.bg, bold: cell.bold },
            )
        } else {
            prefix
        }
    }
}

/// Whether a frame forces a full redraw against a retained one: nothing
/// retained, or dimensions changed.
pub open spec fn spec_needs_full(last: Option<Frame>, cur: Frame) -> bool {
    match last {
        Some(l) => l.width != cur.width || l.height != cur.height,
        None => true,
    }
}

/// The whole command stream one frame yields: an optional full clear,
/// the per-cell diff in row-major order starting from reset attributes,
/// and a trailing attribute and color reset.
pub open spec fn spec_plan(last: Option<Frame>, cur: Frame) -> Seq<TermCmd> {
    let full = spec_needs_full(last, cur);
    (if full {
        seq![TermCmd::ClearAll]
    } else {
        Seq::empty()
    }) + spec_plan_upto(
        last,
        cur,
        full,
        cur.cells@.len() as int,
        AttrState { fg: None, bg: None, bold: false },
    ).0 + seq![TermCmd::ResetAttributes, TermCmd::ResetColors]
}

/// The stateful diffing writer: retains the last frame it emitted and
/// turns each new frame into the minimal command stream `spec_plan`
/// describes.
pub struct Terminal {
    pub last: Option<Frame>,
}

impl Terminal {
    /// The retained frame, if any, is internally consistent.
    pub open spec fn wf(self) -> bool {
        self.last is Some ==> self.last->0.wf()
    }

    /// A writer that has emitted nothing yet.
    pub fn new() -> (t: Terminal)
        ensures
            t.last is None,
            t.wf(),
    {
        Terminal { last: None }
    }

    /// Diff `frame` against the retained frame and return the command
    /// stream that brings the screen up to date; retain a copy of
    /// `frame` for the next call.
    #[verifier::rlimit(100)]
    pub fn draw(&mut self, frame: &Frame) -> (cmds: Vec<TermCmd>)
        requires
            old(self).wf(),
            frame.wf(),
        ensures
            final(self).wf(),
            cmds@ == spec_plan(old(self).last, *frame),
            final(self).last is Some,
            final(self).last->0.width == frame.width,
            final(self).last->0.height == frame.height,
            final(self).last->0.cells@ == frame.cells@,
    {
        let full: bool = match &self.last {
            Some(l) => l.width != frame.width || l.height != frame.height,
            None => true,
        };
        let mut out: Vec<TermCmd> = Vec::new();
        if full {
            out.push(TermCmd::ClearAll);
        }
        let ghost head: Seq<TermCmd> = out@;
        let ghost st0 = AttrState { fg: None, bg: None, bold: false };
        let mut cur_fg: Option<TermColor> = None;
        let mut cur_bg: Option<TermColor> = None;
        let mut cur_bold: bool = false;
        let len: usize = frame.cells.len();
        let mut i: usize = 0;
        while i < len
            invariant
                i <= len,
                len == frame.cells@.len(),
                frame.wf(),
                self.last == old(self).last,
                full == spec_needs_full(old(self).last, *frame),
                head == (if full {
                    seq![TermCmd::ClearAll]
                } else {
                    Seq::<TermCmd>::empty()
                }),
                out@ == head + spec_plan_upto(old(self).last, *frame, full, i as int, st0).0,
                (AttrState { fg: cur_fg, bg: cur_bg, bold: cur_bold }) == spec_plan_upto(
                    old(self).last,
                    *frame,
                    full,
                    i as int,
                    st0,
                ).1,
                st0 == (AttrState { fg: None, bg: None, bold: false }),
            decreases len - i,
        {
            let changed: bool = if full {
                true
            } else {
                match &self.last {
                    Some(l) => {
                        if i < l.cells.len() {
                            !cell_eq(&l.cells[i], &frame.cells[i])
                        } else {
                            true
                        }
                    },
                    None => true,
                }
            };
            if changed {
                proof {
                    lemma_grid_positive(frame.width as int, frame.height as int, i as int);
                }
                let cell = frame.cells[i];
                let x: u16 = (i % frame.width as usize) as u16;
                let y: u16 = (i / frame.width as usize) as u16;
                out.push(TermCmd::MoveTo(x, y));
                if !opt_color_eq(cell.fg, cur_fg) {
                    out.push(TermCmd::SetFg(cell.fg));
                    cur_fg = cell.fg;
                }
                if !opt_color_eq(cell.bg, cur_bg) {
                    out.push(TermCmd::SetBg(cell.bg));
                    cur_bg = cell.bg;
                }
                if cell.bold != cur_bold {
                    out.push(TermCmd::SetBold(cell.bold));
                    cur_bold = cell.bold;
                }
                let pr = print_cmd(cell.ch);
                out.push(pr);
                cur_fg = cell.fg;
                cur_bg = cell.bg;
                cur_bold = cell.bold;
                proof {
                    lemma_index_decompose(i as int, frame.width as int, frame.height as int);
                    assert(out@ =~= head + spec_plan_upto(
                        old(self).last,
                        *frame,
                        full,
                        i + 1,
                        st0,
                    ).0);
                }
            }
            i = i + 1;
        }
        out.push(TermCmd::ResetAttributes);
        out.push(TermCmd::ResetColors);
        self.last = Some(frame.duplicate());
        proof {
            assert(out@ =~= spec_plan(old(self).last, *frame));
        }
        out
    }
}

/// A glyph write command.
fn print_cmd(c: char) -> (r: TermCmd)
    ensures
        r == TermCmd::Print(c),
{
    TermCmd::Print(c)
}

/// A grid with a cell in it has a positive width and height.
proof fn lemma_grid_positive(w: int, h: int, i: int)
    by (nonlinear_arith)
    requires
        0 <= i < w * h,
        0 <= w,
        0 <= h,
    ensures
        0 < w,
        0 < h,
{
}

/// A row-major index decomposes into in-range coordinates.
proof fn lemma_index_decompose(i: int, w: int, h: int)
    by (nonlinear_arith)
    requires
        0 <= i < w * h,
        0 < w,
        0 <= h,
    ensures
        0 <= i % w < w,
        0 <= i / w < h,
{
}

/// A blank cell over the given background.
pub fn blank_cell(bg: Option<TermColor>) -> (c: Cell)
    ensures
        c == spec_blank_cell(bg),
{
    Cell { ch: ' ', fg: None, bg, bold: false }
}

/// Diffing emits nothing over an unchanged range: cells of `cur` that
/// agree with the retained frame contribute no commands and leave the
/// attribute state alone.
pub proof fn lemma_plan_unchanged_range(
    last: Option<Frame>,
    cur: Frame,
    full: bool,
    a: int,
    b: int,
    st: AttrState,
)
    requires
        0 <= a <= b,
        forall|i: int| a <= i < b ==> !spec_cell_changed(last, cur, full, i),
    ensures
        spec_plan_upto(last, cur, full, b, st) == spec_plan_upto(last, cur, full, a, st),
    decreases b - a,
{
    if b > a {
        lemma_plan_unchanged_range(last, cur, full, a, b - 1, st);
    }
}

/// Renderer diff correctness: when the retained frame has the same
/// dimensions and the new frame differs from it in exactly one cell,
/// the writer's plan is exactly one cursor move, the attribute changes
/// that cell needs, and one glyph write, followed by the trailing
/// resets — nothing is written for unchanged cells.
pub proof fn lemma_plan_single_change(prev: Frame, cur: Frame, j: int)
    requires
        prev.wf(),
        cur.wf(),
        prev.width == cur.width,
        prev.height == cur.height,
        0 <= j < cur.cells@.len(),
        prev.cells@.len() == cur.cells@.len(),
        forall|i: int| 0 <= i < cur.cells@.len() && i != j ==> prev.cells@[i] == cur.cells@[i],
        prev.cells@[j] != cur.cells@[j],
    ensures
        spec_plan(Some(prev), cur) == spec_cell_cmds(
            cur.cells@[j],
            AttrState { fg: None, bg: None, bold: false },
            (j % cur.width as int) as u16,
            (j / cur.width as int) as u16,
        ) + seq![TermCmd::ResetAttributes, TermCmd::ResetColors],
{
    let full = spec_needs_full(Some(prev), cur);
    assert(!full);
    let st0 = AttrState { fg: None, bg: None, bold: false };
    let n = cur.cells@.len() as int;
    assert(forall|i: int| 0 <= i < n && i != j ==> !spec_cell_changed(Some(prev), cur, full, i));
    lemma_plan_unchanged_range(Some(prev), cur, full, 0, j, st0);
    assert(spec_plan_upto(Some(prev), cur, full, j, st0) == (Seq::<TermCmd>::empty(), st0));
    assert(spec_cell_changed(Some(prev), cur, full, j));
    let cell = cur.cells@[j];
    let stepped = spec_plan_upto(Some(prev), cur, full, j + 1, st0);
    assert(stepped.0 == Seq::<TermCmd>::empty() + spec_cell_cmds(
        cell,
        st0,
        (j % cur.width as int) as u16,
        (j / cur.width as int) as u16,
    ));
    lemma_plan_unchanged_range(
        Some(prev),
        cur,
        full,
        j + 1,
        n,
        st0,
    );
    assert(spec_plan(Some(prev), cur) =~= spec_cell_cmds(
        cell,
        st0,
        (j % cur.width as int) as u16,
        (j / cur.width as int) as u16,
    ) + seq![TermCmd::ResetAttributes, TermCmd::ResetColors]);
}

} // verus!
