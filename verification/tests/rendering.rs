use cosmostrix::cell::{Cell, TermColor};
use cosmostrix::cloud::{CharLoc, DrawCtx};
use cosmostrix::frame::Frame;
use cosmostrix::runtime::{BoldMode, ColorMode};
use cosmostrix::terminal::{blank_cell, TermCmd, Terminal};

fn test_ctx() -> DrawCtx {
    DrawCtx {
        lines: 4,
        full_width: false,
        shading_distance: false,
        bg: Some(TermColor::Black),
        color_mode: ColorMode::Color256,
        bold_mode: BoldMode::Random,
        glitchy: true,
        last_glitch_time: 0,
        next_glitch_time: 1000,
        palette_colors: vec![
            TermColor::Ansi(10),
            TermColor::Ansi(11),
            TermColor::Ansi(12),
            TermColor::Ansi(13),
            TermColor::Ansi(14),
            TermColor::Ansi(15),
            TermColor::Ansi(16),
            TermColor::Ansi(17),
        ],
        color_map: vec![5; 16],
        glitch_map: vec![true; 16],
        char_pool: vec!['k'; 8],
    }
}

#[test]
fn frame_set_and_get() {
    let mut f = Frame::new(6, 3, None);
    assert_eq!(f.get(5, 2), Some(Cell::blank()));
    let c = Cell { ch: 'Q', fg: Some(TermColor::Green), bg: None, bold: true };
    f.set(5, 2, c);
    assert_eq!(f.get(5, 2), Some(c));
    assert_eq!(f.get(6, 2), None);
    assert_eq!(f.get(5, 3), None);
    // Out-of-range writes change nothing.
    f.set(6, 0, c);
    assert_eq!(f.cells.iter().filter(|x| x.ch == 'Q').count(), 1);
}

#[test]
fn glitch_bright_phase_raises_index_and_bold() {
    let ctx = test_ctx();
    // At a tenth of the window the phase is bright: one above the
    // baseline of 5, forced bold.
    let (fg, bold) = ctx.get_attr(1, 2, 'k', CharLoc::Middle, 100, 3, 4);
    assert_eq!(fg, Some(TermColor::Ansi(16)));
    assert!(bold);
}

#[test]
fn glitch_dim_phase_lowers_index_and_unbolds() {
    let ctx = test_ctx();
    // At nine tenths of the window the phase is dim: one below the
    // baseline, bold cleared.
    let (fg, bold) = ctx.get_attr(1, 2, 'k', CharLoc::Middle, 900, 3, 4);
    assert_eq!(fg, Some(TermColor::Ansi(14)));
    assert!(!bold);
}

#[test]
fn glitch_neutral_phase_keeps_baseline() {
    let ctx = test_ctx();
    // Half way through the window neither phase applies.
    let (fg, _) = ctx.get_attr(1, 2, 'k', CharLoc::Middle, 500, 3, 4);
    assert_eq!(fg, Some(TermColor::Ansi(15)));
}

#[test]
fn head_overrides_all_computation() {
    let mut ctx = test_ctx();
    ctx.shading_distance = true;
    // Whatever glitch and shading computed, a head cell takes the last
    // palette entry and is bold.
    let (fg, bold) = ctx.get_attr(3, 2, 'k', CharLoc::Head, 100, 3, 4);
    assert_eq!(fg, Some(TermColor::Ansi(17)));
    assert!(bold);
    let (fg2, bold2) = ctx.get_attr(3, 2, 'k', CharLoc::Head, 900, 3, 4);
    assert_eq!(fg2, Some(TermColor::Ansi(17)));
    assert!(bold2);
}

#[test]
fn tail_is_darkest_and_plain() {
    let ctx = test_ctx();
    let (fg, bold) = ctx.get_attr(1, 2, 'k', CharLoc::Tail, 500, 3, 4);
    assert_eq!(fg, Some(TermColor::Ansi(10)));
    assert!(!bold);
}

#[test]
fn empty_palette_collapses_to_no_foreground() {
    let mut ctx = test_ctx();
    ctx.palette_colors = Vec::new();
    let (fg, _) = ctx.get_attr(1, 2, 'k', CharLoc::Middle, 500, 3, 4);
    assert_eq!(fg, None);
    let (fg2, _) = ctx.get_attr(3, 2, 'k', CharLoc::Head, 100, 3, 4);
    assert_eq!(fg2, None);
}

#[test]
fn monochrome_has_no_foreground() {
    let mut ctx = test_ctx();
    ctx.color_mode = ColorMode::Mono;
    let (fg, _) = ctx.get_attr(3, 2, 'k', CharLoc::Head, 100, 3, 4);
    assert_eq!(fg, None);
}

#[test]
fn first_draw_clears_and_paints_everything() {
    let mut term = Terminal::new();
    let frame = Frame::new(2, 1, None);
    let cmds = term.draw(&frame);
    assert_eq!(cmds[0], TermCmd::ClearAll);
    assert_eq!(cmds.iter().filter(|c| matches!(c, TermCmd::MoveTo(_, _))).count(), 2);
    assert_eq!(cmds.iter().filter(|c| matches!(c, TermCmd::Print(_))).count(), 2);
    assert_eq!(cmds[cmds.len() - 2], TermCmd::ResetAttributes);
    assert_eq!(cmds[cmds.len() - 1], TermCmd::ResetColors);
}

#[test]
fn single_cell_diff_emits_one_move_and_one_print() {
    let mut term = Terminal::new();
    let mut frame = Frame::new(10, 2, None);
    let _ = term.draw(&frame);
    frame.set(5, 1, Cell { ch: 'X', fg: Some(TermColor::Green), bg: None, bold: true });
    let cmds = term.draw(&frame);
    assert_eq!(
        cmds,
        vec![
            TermCmd::MoveTo(5, 1),
            TermCmd::SetFg(Some(TermColor::Green)),
            TermCmd::SetBold(true),
            TermCmd::Print('X'),
            TermCmd::ResetAttributes,
            TermCmd::ResetColors,
        ]
    );
}

#[test]
fn unchanged_frame_emits_only_the_trailer() {
    let mut term = Terminal::new();
    let frame = Frame::new(4, 4, Some(TermColor::Black));
    let _ = term.draw(&frame);
    let cmds = term.draw(&frame);
    assert_eq!(cmds, vec![TermCmd::ResetAttributes, TermCmd::ResetColors]);
}

#[test]
fn resize_forces_a_full_clear() {
    let mut term = Terminal::new();
    let _ = term.draw(&Frame::new(4, 4, None));
    let cmds = term.draw(&Frame::new(5, 4, None));
    assert_eq!(cmds[0], TermCmd::ClearAll);
}

#[test]
fn blank_cell_carries_the_background() {
    let c = blank_cell(Some(TermColor::Ansi(7)));
    assert_eq!(c.ch, ' ');
    assert_eq!(c.fg, None);
    assert_eq!(c.bg, Some(TermColor::Ansi(7)));
    assert!(!c.bold);
}

#[test]
fn attribute_changes_are_cached_between_cells() {
    let mut term = Terminal::new();
    let mut frame = Frame::new(4, 1, None);
    let _ = term.draw(&frame);
    let green = Cell { ch: 'a', fg: Some(TermColor::Green), bg: None, bold: false };
    frame.set(1, 0, green);
    frame.set(2, 0, Cell { ch: 'b', ..green });
    let cmds = term.draw(&frame);
    // One foreground change serves both adjacent cells.
    assert_eq!(
        cmds.iter().filter(|c| matches!(c, TermCmd::SetFg(_))).count(),
        1
    );
    assert_eq!(
        cmds,
        vec![
            TermCmd::MoveTo(1, 0),
            TermCmd::SetFg(Some(TermColor::Green)),
            TermCmd::Print('a'),
            TermCmd::MoveTo(2, 0),
            TermCmd::Print('b'),
            TermCmd::ResetAttributes,
            TermCmd::ResetColors,
        ]
    );
}
