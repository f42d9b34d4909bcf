use vstd::prelude::*;

use crate::cell::TermColor;
use crate::runtime::{ColorMode, ColorScheme, UserColor, UserColors};

verus! {

/// An ordered color ramp, darkest first, and an optional background.
#[derive(Clone, Debug)]
pub struct Palette {
    pub colors: Vec<TermColor>,
    pub bg: Option<TermColor>,
}

/// A 0..=1000 scaled channel brought to 0..=255, as the palette builder
/// computes it (values over 1000 wrap through the final byte cast).
pub open spec fn spec_channel_from_1000(v: u16) -> u8 {
    (((v as int) * 255 / 1000) % 256) as u8
}

/// An RGB triple scaled to 0..=1000 per channel, as a terminal color.
pub open spec fn spec_rgb_from_1000(r: u16, g: u16, b: u16) -> TermColor {
    TermColor::Rgb(
        spec_channel_from_1000(r),
        spec_channel_from_1000(g),
        spec_channel_from_1000(b),
    )
}

/// An RGB triple scaled to 0..=1000 per channel, as a terminal color.
pub fn rgb_from_1000(r: u16, g: u16, b: u16) -> (c: TermColor)
    ensures
        c == spec_rgb_from_1000(r, g, b),
{
    let rr: u8 = ((r as u32 * 255 / 1000) % 256) as u8;
    let gg: u8 = ((g as u32 * 255 / 1000) % 256) as u8;
    let bb: u8 = ((b as u32 * 255 / 1000) % 256) as u8;
    TermColor::Rgb(rr, gg, bb)
}

/// The terminal color one user-supplied entry denotes: its RGB triple in
/// true-color mode when it has one, else its ANSI index.
pub open spec fn spec_user_entry_color(mode: ColorMode, c: UserColor) -> TermColor {
    if mode == ColorMode::TrueColor && c.rgb_1000 is Some {
        spec_rgb_from_1000(c.rgb_1000->0.r, c.rgb_1000->0.g, c.rgb_1000->0.b)
    } else {
        TermColor::Ansi(c.index)
    }
}

/// The terminal color one user-supplied entry denotes.
pub fn user_entry_color(mode: ColorMode, c: &UserColor) -> (r: TermColor)
    ensures
        r == spec_user_entry_color(mode, *c),
{
    match c.rgb_1000 {
        Some(rgb) => {
            if mode == ColorMode::TrueColor {
                rgb_from_1000(rgb.r, rgb.g, rgb.b)
            } else {
                TermColor::Ansi(c.index)
            }
        },
        None => TermColor::Ansi(c.index),
    }
}

/// The color ramp of a user-supplied table: every entry but the first
/// (the background), or a lone green when the table has at most one
/// entry.
pub open spec fn spec_user_colors(mode: ColorMode, colors: Seq<UserColor>) -> Seq<TermColor> {
    if colors.len() <= 1 {
        seq![TermColor::Green]
    } else {
        colors.skip(1).map(|i: int, c: UserColor| spec_user_entry_color(mode, c))
    }
}

/// The color ramp of a built-in scheme under a color mode: a lone white
/// in monochrome, a short named ramp in 16-color mode, and an ANSI ramp
/// otherwise. The user scheme is handled separately.
pub open spec fn spec_builtin_colors(scheme: ColorScheme, mode: ColorMode) -> Seq<TermColor> {
    if mode == ColorMode::Mono {
        seq![TermColor::White]
    } else if mode == ColorMode::Color16 {
        match scheme {
            ColorScheme::User => seq![TermColor::Green],
            ColorScheme::Green => seq![TermColor::DarkGreen, TermColor::Green],
            ColorScheme::Green2 => seq![
                TermColor::DarkGrey,
                TermColor::DarkGreen,
                TermColor::Green,
                TermColor::White,
            ],
            ColorScheme::Green3 => seq![TermColor::DarkGreen, TermColor::White],
            ColorScheme::Gold => seq![
                TermColor::DarkGrey,
                TermColor::DarkYellow,
                TermColor::Yellow,
                TermColor::White,
            ],
            ColorScheme::Yellow => seq![TermColor::DarkGrey, TermColor::Yellow, TermColor::White],
            ColorScheme::Orange => seq![TermColor::Red, TermColor::Grey],
            ColorScheme::Red => seq![TermColor::DarkRed, TermColor::Red, TermColor::White],
            ColorScheme::Blue => seq![TermColor::DarkBlue, TermColor::Blue, TermColor::White],
            ColorScheme::Cyan => seq![TermColor::DarkCyan, TermColor::Cyan, TermColor::White],
            ColorScheme::Purple => seq![TermColor::Magenta, TermColor::Grey],
            ColorScheme::Pink => seq![TermColor::Magenta, TermColor::White],
            ColorScheme::Pink2 => seq![TermColor::Magenta, TermColor::Magenta, TermColor::White],
            ColorScheme::Vaporwave => seq![
                TermColor::Magenta,
                TermColor::Magenta,
                TermColor::Yellow,
                TermColor::Cyan,
                TermColor::White,
            ],
            ColorScheme::Gray => seq![TermColor::DarkGrey, TermColor::Grey, TermColor::White],
            ColorScheme::Rainbow => seq![
                TermColor::Red,
                TermColor::Blue,
                TermColor::Yellow,
                TermColor::Green,
                TermColor::Cyan,
                TermColor::Magenta,
            ],
        }
    } else {
        match scheme {
            ColorScheme::User => seq![TermColor::Green],
            ColorScheme::Green => ansi_seq(seq![234u8, 22, 28, 35, 78, 84, 159]),
            ColorScheme::Green2 => ansi_seq(seq![28u8, 34, 76, 84, 120, 157, 231]),
            ColorScheme::Green3 => ansi_seq(seq![22u8, 28, 34, 70, 76, 82, 157]),
            ColorScheme::Gold => ansi_seq(seq![58u8, 94, 172, 178, 228, 230, 231]),
            ColorScheme::Yellow => ansi_seq(seq![100u8, 142, 184, 226, 227, 229, 230]),
            ColorScheme::Orange => ansi_seq(seq![52u8, 94, 130, 166, 202, 208, 231]),
            ColorScheme::Red => ansi_seq(seq![234u8, 52, 88, 124, 160, 196, 217]),
            ColorScheme::Blue => ansi_seq(seq![234u8, 17, 18, 19, 20, 21, 75, 159]),
            ColorScheme::Cyan => ansi_seq(seq![24u8, 25, 31, 32, 38, 45, 159]),
            ColorScheme::Purple => ansi_seq(seq![60u8, 61, 62, 63, 69, 111, 225]),
            ColorScheme::Pink => ansi_seq(seq![133u8, 139, 176, 212, 218, 224, 231]),
            ColorScheme::Pink2 => ansi_seq(seq![145u8, 181, 217, 218, 224, 225, 231]),
            ColorScheme::Vaporwave => ansi_seq(
                seq![53u8, 54, 55, 134, 177, 219, 214, 220, 227, 229, 87, 123, 159, 195, 231],
            ),
            ColorScheme::Gray => ansi_seq(seq![234u8, 237, 240, 243, 246, 249, 251, 252, 231]),
            ColorScheme::Rainbow => ansi_seq(seq![196u8, 208, 226, 46, 21, 93, 201]),
        }
    }
}

/// A sequence of ANSI palette indices as terminal colors.
pub open spec fn ansi_seq(list: Seq<u8>) -> Seq<TermColor> {
    list.map(|i: int, v: u8| TermColor::Ansi(v))
}

/// The whole color ramp a palette request yields.
pub open spec fn spec_palette_colors(
    scheme: ColorScheme,
    mode: ColorMode,
    user: Option<Seq<UserColor>>,
) -> Seq<TermColor> {
    if scheme == ColorScheme::User {
        match user {
            Some(colors) => spec_user_colors(mode, colors),
            None => seq![TermColor::Green],
        }
    } else {
        spec_builtin_colors(scheme, mode)
    }
}

/// The background a palette request yields: none over the terminal's
/// default background, the first user color for a user table, black
/// otherwise.
pub open spec fn spec_palette_bg(
    scheme: ColorScheme,
    mode: ColorMode,
    default_background: bool,
    user: Option<Seq<UserColor>>,
) -> Option<TermColor> {
    if default_background {
        None
    } else if scheme == ColorScheme::User && user is Some && user->0.len() > 0 {
        Some(spec_user_entry_color(mode, user->0[0]))
    } else {
        Some(TermColor::Black)
    }
}

/// Copy a fixed list of colors into a vector.
fn vec_of_colors(xs: &[TermColor]) -> (r: Vec<TermColor>)
    ensures
        r@ == xs@,
{
    let mut out: Vec<TermColor> = Vec::new();
    let mut i: usize = 0;
    while i < xs.len()
        invariant
            i <= xs@.len(),
            out@ =~= xs@.subrange(0, i as int),
        decreases xs@.len() - i,
    {
        out.push(xs[i]);
        i = i + 1;
    }
    proof {
        assert(out@ =~= xs@);
    }
    out
}

/// Copy a fixed list of ANSI indices into a vector of colors.
fn vec_of_ansi(xs: &[u8]) -> (r: Vec<TermColor>)
    ensures
        r@ == ansi_seq(xs@),
{
    let mut out: Vec<TermColor> = Vec::new();
    let mut i: usize = 0;
    while i < xs.len()
        invariant
            i <= xs@.len(),
            out@ =~= ansi_seq(xs@).subrange(0, i as int),
        decreases xs@.len() - i,
    {
        out.push(TermColor::Ansi(xs[i]));
        i = i + 1;
    }
    proof {
        assert(out@ =~= ansi_seq(xs@));
    }
    out
}

/// Build the active palette for a scheme, color mode, background choice
/// and optional user color table.
pub fn build_palette(
    scheme: ColorScheme,
    mode: ColorMode,
    default_background: bool,
    user: Option<&UserColors>,
) -> (p: Palette)
    ensures
        p.colors@ == spec_palette_colors(
            scheme,
            mode,
            match user {
                Some(u) => Some(u.colors@),
                None => None,
            },
        ),
        p.bg == spec_palette_bg(
            scheme,
            mode,
            default_background,
            match user {
                Some(u) => Some(u.colors@),
                None => None,
            },
        ),
        p.colors@.len() >= 1,
{
    let colors: Vec<TermColor> = if scheme == ColorScheme::User {
        match user {
            Some(u) => {
                if u.colors.len() <= 1 {
                    vec_of_colors(&[TermColor::Green])
                } else {
                    let mut out: Vec<TermColor> = Vec::new();
                    let mut i: usize = 1;
                    while i < u.colors.len()
                        invariant
                            1 <= i <= u.colors@.len(),
                            u.colors@.len() > 1,
                            out@ =~= u.colors@.subrange(1, i as int).map(
                                |j: int, c: UserColor| spec_user_entry_color(mode, c),
                            ),
                        decreases u.colors@.len() - i,
                    {
                        let c = user_entry_color(mode, &u.colors[i]);
                        out.push(c);
                        proof {
                            assert(u.colors@.subrange(1, i + 1).map(
                                |j: int, c: UserColor| spec_user_entry_color(mode, c),
                            ) =~= u.colors@.subrange(1, i as int).map(
                                |j: int, c: UserColor| spec_user_entry_color(mode, c),
                            ).push(spec_user_entry_color(mode, u.colors@[i as int])));
                        }
                        i = i + 1;
                    }
                    proof {
                        assert(u.colors@.subrange(1, u.colors@.len() as int) =~= u.colors@.skip(
                            1,
                        ));
                        assert(out@ =~= spec_user_colors(mode, u.colors@));
                    }
                    out
                }
            },
            None => vec_of_colors(&[TermColor::Green]),
        }
    } else if mode == ColorMode::Mono {
        vec_of_colors(&[TermColor::White])
    } else if mode == ColorMode::Color16 {
        match scheme {
            ColorScheme::User => vec_of_colors(&[TermColor::Green]),
            ColorScheme::Green => vec_of_colors(&[TermColor::DarkGreen, TermColor::Green]),
            ColorScheme::Green2 => vec_of_colors(
                &[TermColor::DarkGrey, TermColor::DarkGreen, TermColor::Green, TermColor::White],
            ),
            ColorScheme::Green3 => vec_of_colors(&[TermColor::DarkGreen, TermColor::White]),
            ColorScheme::Gold => vec_of_colors(
                &[TermColor::DarkGrey, TermColor::DarkYellow, TermColor::Yellow, TermColor::White],
            ),
            ColorScheme::Yellow => vec_of_colors(
                &[TermColor::DarkGrey, TermColor::Yellow, TermColor::White],
            ),
            ColorScheme::Orange => vec_of_colors(&[TermColor::Red, TermColor::Grey]),
            ColorScheme::Red => vec_of_colors(
                &[TermColor::DarkRed, TermColor::Red, TermColor::White],
            ),
            ColorScheme::Blue => vec_of_colors(
                &[TermColor::DarkBlue, TermColor::Blue, TermColor::White],
            ),
            ColorScheme::Cyan => vec_of_colors(
                &[TermColor::DarkCyan, TermColor::Cyan, TermColor::White],
            ),
            ColorScheme::Purple => vec_of_colors(&[TermColor::Magenta, TermColor::Grey]),
            ColorScheme::Pink => vec_of_colors(&[TermColor::Magenta, TermColor::White]),
            ColorScheme::Pink2 => vec_of_colors(
                &[TermColor::Magenta, TermColor::Magenta, TermColor::White],
            ),
            ColorScheme::Vaporwave => vec_of_colors(
                &[
                    TermColor::Magenta,
                    TermColor::Magenta,
                    TermColor::Yellow,
                    TermColor::Cyan,
                    TermColor::White,
                ],
            ),
            ColorScheme::Gray => vec_of_colors(
                &[TermColor::DarkGrey, TermColor::Grey, TermColor::White],
            ),
            ColorScheme::Rainbow => vec_of_colors(
                &[
                    TermColor::Red,
                    TermColor::Blue,
                    TermColor::Yellow,
                    TermColor::Green,
                    TermColor::Cyan,
                    TermColor::Magenta,
                ],
            ),
        }
    } else {
        match scheme {
            ColorScheme::User => vec_of_colors(&[TermColor::Green]),
            ColorScheme::Green => vec_of_ansi(&[234, 22, 28, 35, 78, 84, 159]),
            ColorScheme::Green2 => vec_of_ansi(&[28, 34, 76, 84, 120, 157, 231]),
            ColorScheme::Green3 => vec_of_ansi(&[22, 28, 34, 70, 76, 82, 157]),
            ColorScheme::Gold => vec_of_ansi(&[58, 94, 172, 178, 228, 230, 231]),
            ColorScheme::Yellow => vec_of_ansi(&[100, 142, 184, 226, 227, 229, 230]),
            ColorScheme::Orange => vec_of_ansi(&[52, 94, 130, 166, 202, 208, 231]),
            ColorScheme::Red => vec_of_ansi(&[234, 52, 88, 124, 160, 196, 217]),
            ColorScheme::Blue => vec_of_ansi(&[234, 17, 18, 19, 20, 21, 75, 159]),
            ColorScheme::Cyan => vec_of_ansi(&[24, 25, 31, 32, 38, 45, 159]),
            ColorScheme::Purple => vec_of_ansi(&[60, 61, 62, 63, 69, 111, 225]),
            ColorScheme::Pink => vec_of_ansi(&[133, 139, 176, 212, 218, 224, 231]),
            ColorScheme::Pink2 => vec_of_ansi(&[145, 181, 217, 218, 224, 225, 231]),
            ColorScheme::Vaporwave => vec_of_ansi(
                &[53, 54, 55, 134, 177, 219, 214, 220, 227, 229, 87, 123, 159, 195, 231],
            ),
            ColorScheme::Gray => vec_of_ansi(&[234, 237, 240, 243, 246, 249, 251, 252, 231]),
            ColorScheme::Rainbow => vec_of_ansi(&[196, 208, 226, 46, 21, 93, 201]),
        }
    };
    let bg: Option<TermColor> = if default_background {
        None
    } else {
        match user {
            Some(u) => {
                if scheme == ColorScheme::User && u.colors.len() > 0 {
                    Some(user_entry_color(mode, &u.colors[0]))
                } else {
                    Some(TermColor::Black)
                }
            },
            None => Some(TermColor::Black),
        }
    };
    Palette { colors, bg }
}

} // verus!
