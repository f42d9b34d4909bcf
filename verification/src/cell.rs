use vstd::prelude::*;

verus! {

/// A terminal color as the palette, the frame and the writer carry it:
/// either one of the sixteen named colors, an ANSI palette index, or an
/// RGB triple.
#[derive(Clone, Copy, Debug, PartialEq, Eq, Structural)]
pub enum TermColor {
    Black,
    DarkGrey,
    Grey,
    White,
    Red,
    DarkRed,
    Green,
    DarkGreen,
    Yellow,
    DarkYellow,
    Blue,
    DarkBlue,
    Magenta,
    DarkMagenta,
    Cyan,
    DarkCyan,
    Ansi(u8),
    Rgb(u8, u8, u8),
}

/// One character cell of the logical screen: a glyph, an optional
/// foreground and background color, and a bold flag. A pure value type.
#[derive(Clone, Copy, Debug, PartialEq, Eq, Structural)]
pub struct Cell {
    pub ch: char,
    pub fg: Option<TermColor>,
    pub bg: Option<TermColor>,
    pub bold: bool,
}

impl Cell {
    /// A cell from its parts.
    pub fn make(ch: char, fg: Option<TermColor>, bg: Option<TermColor>, bold: bool) -> (c: Cell)
        ensures
            c == (Cell { ch, fg, bg, bold }),
    {
        Cell { ch, fg, bg, bold }
    }

    /// A blank cell: a space with no colors and no bold.
    pub fn blank() -> (c: Cell)
        ensures
            c == (Cell { ch: ' ', fg: None::<TermColor>, bg: None::<TermColor>, bold: false }),
    {
        Cell { ch: ' ', fg: None, bg: None, bold: false }
    }

    /// A blank cell over the given background color.
    pub fn blank_with_bg(bg: Option<TermColor>) -> (c: Cell)
        ensures
            c == (Cell { ch: ' ', fg: None::<TermColor>, bg: bg, bold: false }),
    {
        Cell { ch: ' ', fg: None, bg, bold: false }
    }
}

/// Whether two optional colors are the same.
pub fn opt_color_eq(a: Option<TermColor>, b: Option<TermColor>) -> (r: bool)
    ensures
        r == (a == b),
{
    match (a, b) {
        (None, None) => true,
        (Some(x), Some(y)) => x == y,
        _ => false,
    }
}

/// Whether two cells hold the same glyph, colors and bold flag.
pub fn cell_eq(a: &Cell, b: &Cell) -> (r: bool)
    ensures
        r == (*a == *b),
{
    a.ch == b.ch && opt_color_eq(a.fg, b.fg) && opt_color_eq(a.bg, b.bg) && a.bold == b.bold
}

} // verus!
