use vstd::prelude::*;

verus! {

/// Color depth the host terminal supports.
#[derive(Clone, Copy, Debug, PartialEq, Eq, Structural)]
pub enum ColorMode {
    Mono,
    Color16,
    Color256,
    TrueColor,
}

/// How a cell's color index is chosen: from the per-cell random map, or
/// from the cell's distance to its droplet's head.
#[derive(Clone, Copy, Debug, PartialEq, Eq, Structural)]
pub enum ShadingMode {
    Random,
    DistanceFromHead,
}

/// Whether glyphs are never, randomly, or always bold.
#[derive(Clone, Copy, Debug, PartialEq, Eq, Structural)]
pub enum BoldMode {
    Off,
    Random,
    All,
}

/// A named palette selection.
#[derive(Clone, Copy, Debug, PartialEq, Eq, Structural)]
pub enum ColorScheme {
    User,
    Green,
    Green2,
    Green3,
    Yellow,
    Orange,
    Red,
    Blue,
    Cyan,
    Gold,
    Rainbow,
    Purple,
    Pink,
    Pink2,
    Vaporwave,
    Gray,
}

/// An RGB triple scaled to a 0..=1000 range per channel.
#[derive(Clone, Copy, Debug, PartialEq, Eq, Structural)]
pub struct Rgb1000 {
    pub r: u16,
    pub g: u16,
    pub b: u16,
}

/// One user-supplied color: an ANSI index, and optionally an RGB triple
/// scaled to a 0..=1000 range per channel.
#[derive(Clone, Copy, Debug, PartialEq, Eq, Structural)]
pub struct UserColor {
    pub index: u8,
    pub rgb_1000: Option<Rgb1000>,
}

/// An ordered user-supplied color table; the first entry is the background.
#[derive(Clone, Debug)]
pub struct UserColors {
    pub colors: Vec<UserColor>,
}

} // verus!
