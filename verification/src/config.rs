use vstd::prelude::*;
use vstd::string::StringSliceAdditionalSpecFns;

use crate::runtime::{ColorMode, ColorScheme, Rgb1000, UserColor, UserColors};
use crate::text::{find_byte, lower_bytes, spec_find, spec_lower, spec_split,
    spec_strip_plus, spec_trim, split_bytes, sub_bytes, trim_bytes};

verus! {

/// An inclusive range of 16-bit numbers, both ends positive.
#[derive(Clone, Copy, Debug, PartialEq, Eq, Structural)]
pub struct U16Range {
    pub low: u16,
    pub high: u16,
}

/// Why a numeric range or a color file was rejected.
#[derive(Clone, Copy, Debug, PartialEq, Eq, Structural)]
pub enum ConfigError {
    /// A range needs two comma-separated numbers.
    ExpectedPair,
    /// The low end is not a 16-bit number.
    InvalidLow,
    /// The high end is not a 16-bit number.
    InvalidHigh,
    /// The ends must be positive with low at most high.
    BadRange,
    /// A color scheme name is not known.
    UnknownScheme,
    /// A color file line does not start with a numeric color index.
    InvalidColorIndex,
    /// A color file line has a malformed RGB channel.
    InvalidChannel,
    /// A color file must hold at least two colors.
    TooFewColors,
}

impl ConfigError {
    /// A short description of the rejection.
    pub fn message(&self) -> (r: &'static str)
        ensures
            true,
    {
        match self {
            ConfigError::ExpectedPair => "expected: NUM1,NUM2",
            ConfigError::InvalidLow => "invalid low value",
            ConfigError::InvalidHigh => "invalid high value",
            ConfigError::BadRange => "range must be >0 and low <= high",
            ConfigError::UnknownScheme => "invalid color",
            ConfigError::InvalidColorIndex => "invalid color index",
            ConfigError::InvalidChannel => "invalid channel value",
            ConfigError::TooFewColors => "color file must contain at least two colors",
        }
    }
}

/// The value of one ASCII decimal digit, or -1.
pub open spec fn spec_dec_digit_val(b: u8) -> int {
    if 48 <= b <= 57 {
        b - 48
    } else {
        -1
    }
}

/// Whether `bs` is one or more ASCII decimal digits.
pub open spec fn spec_all_dec(bs: Seq<u8>) -> bool {
    bs.len() >= 1 && forall|i: int| 0 <= i < bs.len() ==> spec_dec_digit_val(bs[i]) >= 0
}

/// The number the decimal digits `bs` denote, most significant first.
pub open spec fn spec_dec_val(bs: Seq<u8>) -> int
    decreases bs.len(),
{
    if bs.len() == 0 {
        0
    } else {
        let d = spec_dec_digit_val(bs.last());
        spec_dec_val(bs.drop_last()) * 10 + (if d >= 0 {
            d
        } else {
            0
        })
    }
}

/// The number `bs` denotes after one tolerated leading plus sign.
pub open spec fn spec_num_val(bs: Seq<u8>) -> int {
    spec_dec_val(spec_strip_plus(bs))
}

/// Whether `bs` denotes a 16-bit number.
pub open spec fn spec_u16_ok(bs: Seq<u8>) -> bool {
    spec_all_dec(spec_strip_plus(bs)) && spec_num_val(bs) <= u16::MAX
}

/// A decimal value is never negative.
proof fn lemma_dec_val_nonneg(bs: Seq<u8>)
    ensures
        spec_dec_val(bs) >= 0,
    decreases bs.len(),
{
    if bs.len() > 0 {
        lemma_dec_val_nonneg(bs.drop_last());
    }
}

/// A decimal value only grows as more digits follow.
proof fn lemma_dec_val_grows(bs: Seq<u8>, k: int)
    requires
        0 <= k <= bs.len(),
    ensures
        spec_dec_val(bs) >= spec_dec_val(bs.take(k)),
    decreases bs.len() - k,
{
    lemma_dec_val_nonneg(bs.take(k));
    if k < bs.len() {
        lemma_dec_val_grows(bs, k + 1);
        assert(bs.take(k + 1).drop_last() =~= bs.take(k));
        assert(spec_dec_val(bs.take(k + 1)) >= spec_dec_val(bs.take(k)));
    } else {
        assert(bs.take(k) =~= bs);
    }
}

/// Parse `bs` as a 16-bit decimal number; one leading plus sign is
/// tolerated.
pub fn parse_dec_u16(ts: &[u8]) -> (r: Option<u16>)
    ensures
        r is Some <==> spec_u16_ok(ts@),
        r matches Some(v) ==> v as int == spec_num_val(ts@),
{
    let body: Vec<u8> = if ts.len() >= 1 && ts[0] == 43 {
        sub_bytes(ts, 1, ts.len())
    } else {
        sub_bytes(ts, 0, ts.len())
    };
    proof {
        assert(body@ =~= spec_strip_plus(ts@));
    }
    let bs = body.as_slice();
    if bs.len() == 0 {
        return None;
    }
    let mut acc: u32 = 0;
    let mut i: usize = 0;
    while i < bs.len()
        invariant
            i <= bs@.len(),
            bs@.len() >= 1,
            bs@ == spec_strip_plus(ts@),
            acc <= u16::MAX,
            acc as int == spec_dec_val(bs@.take(i as int)),
            forall|j: int| 0 <= j < i as int ==> spec_dec_digit_val(bs@[j]) >= 0,
        decreases bs@.len() - i,
    {
        let b = bs[i];
        if !(48 <= b && b <= 57) {
            return None;
        }
        proof {
            assert(bs@.take(i + 1).drop_last() =~= bs@.take(i as int));
            assert(bs@.take(i + 1).last() == bs@[i as int]);
        }
        let next: u32 = acc * 10 + (b - 48) as u32;
        if next > 0xffff {
            proof {
                lemma_dec_val_grows(bs@, i + 1);
            }
            return None;
        }
        acc = next;
        i = i + 1;
    }
    proof {
        assert(bs@.take(bs@.len() as int) =~= bs@);
    }
    Some(acc as u16)
}

impl U16Range {
    /// Parse a `low,high` pair of positive 16-bit numbers: the text up
    /// to the first comma and the rest, both trimmed, must be decimal
    /// numbers, positive, with low at most high.
    pub fn from_str(s: &str) -> (r: Result<U16Range, ConfigError>)
        ensures
            ({
                let bs = s.spec_bytes();
                let cut = spec_find(bs, 44);
                if cut < 0 {
                    r == Err::<U16Range, ConfigError>(ConfigError::ExpectedPair)
                } else {
                    let a = spec_trim(bs.take(cut));
                    let b = spec_trim(bs.skip(cut + 1));
                    if !spec_u16_ok(a) {
                        r == Err::<U16Range, ConfigError>(ConfigError::InvalidLow)
                    } else if !spec_u16_ok(b) {
                        r == Err::<U16Range, ConfigError>(ConfigError::InvalidHigh)
                    } else if spec_num_val(a) == 0 || spec_num_val(b) == 0 || spec_num_val(a)
                        > spec_num_val(b) {
                        r == Err::<U16Range, ConfigError>(ConfigError::BadRange)
                    } else {
                        r matches Ok(v) && v.low as int == spec_num_val(a) && v.high as int
                            == spec_num_val(b)
                    }
                }
            }),
    {
        let bs = s.as_bytes();
        let n: usize = bs.len();
        let cut: usize = match find_byte(bs, 0, 44) {
            Some(j) => j,
            None => {
                proof {
                    assert(bs@.skip(0) =~= bs@);
                }
                return Err(ConfigError::ExpectedPair);
            },
        };
        proof {
            assert(bs@.skip(0) =~= bs@);
            assert(bs@.subrange(0, cut as int) =~= bs@.take(cut as int));
            assert(bs@.subrange(cut + 1, bs@.len() as int) =~= bs@.skip(cut + 1));
        }
        let head = sub_bytes(bs, 0, cut);
        let tail = sub_bytes(bs, if cut < n {
            cut + 1
        } else {
            n
        }, n);
        let ta = trim_bytes(head.as_slice());
        let tb = trim_bytes(tail.as_slice());
        let low: u16 = match parse_dec_u16(ta.as_slice()) {
            Some(v) => v,
            None => {
                return Err(ConfigError::InvalidLow);
            },
        };
        let high: u16 = match parse_dec_u16(tb.as_slice()) {
            Some(v) => v,
            None => {
                return Err(ConfigError::InvalidHigh);
            },
        };
        if low == 0 || high == 0 || low > high {
            return Err(ConfigError::BadRange);
        }
        Ok(U16Range { low, high })
    }
}

/// The color scheme a trimmed, lowered keyword denotes, or none.
pub open spec fn spec_scheme_of(key: Seq<u8>) -> Option<ColorScheme> {
    if key == seq![117u8, 115u8, 101u8, 114u8] {  // "user"
        Some(ColorScheme::User)
    } else
    if key == seq![103u8, 114u8, 101u8, 101u8, 110u8] {  // "green"
        Some(ColorScheme::Green)
    } else
    if key == seq![103u8, 114u8, 101u8, 101u8, 110u8, 50u8] {  // "green2"
        Some(ColorScheme::Green2)
    } else
    if key == seq![103u8, 114u8, 101u8, 101u8, 110u8, 51u8] {  // "green3"
        Some(ColorScheme::Green3)
    } else
    if key == seq![121u8, 101u8, 108u8, 108u8, 111u8, 119u8] {  // "yellow"
        Some(ColorScheme::Yellow)
    } else
    if key == seq![111u8, 114u8, 97u8, 110u8, 103u8, 101u8] {  // "orange"
        Some(ColorScheme::Orange)
    } else
    if key == seq![114u8, 101u8, 100u8] {  // "red"
        Some(ColorScheme::Red)
    } else
    if key == seq![98u8, 108u8, 117u8, 101u8] {  // "blue"
        Some(ColorScheme::Blue)
    } else
    if key == seq![99u8, 121u8, 97u8, 110u8] {  // "cyan"
        Some(ColorScheme::Cyan)
    } else
    if key == seq![103u8, 111u8, 108u8, 100u8] {  // "gold"
        Some(ColorScheme::Gold)
    } else
    if key == seq![114u8, 97u8, 105u8, 110u8, 98u8, 111u8, 119u8] {  // "rainbow"
        Some(ColorScheme::Rainbow)
    } else
    if key == seq![112u8, 117u8, 114u8, 112u8, 108u8, 101u8] {  // "purple"
        Some(ColorScheme::Purple)
    } else
    if key == seq![112u8, 105u8, 110u8, 107u8] {  // "pink"
        Some(ColorScheme::Pink)
    } else
    if key == seq![112u8, 105u8, 110u8, 107u8, 50u8] {  // "pink2"
        Some(ColorScheme::Pink2)
    } else
    if key == seq![118u8, 97u8, 112u8, 111u8, 114u8, 119u8, 97u8, 118u8, 101u8] {  // "vaporwave"
        Some(ColorScheme::Vaporwave)
    } else
    if key == seq![103u8, 114u8, 97u8, 121u8] {  // "gray"
        Some(ColorScheme::Gray)
    } else
    if key == seq![103u8, 114u8, 101u8, 121u8] {  // "grey"
        Some(ColorScheme::Gray)
    } else {
        None
    }
}

/// Parse a color scheme name, trimmed and case-insensitive.
pub fn parse_color_scheme(s: &str) -> (r: Result<ColorScheme, ConfigError>)
    ensures
        ({
            let key = spec_lower(spec_trim(s.spec_bytes()));
            match spec_scheme_of(key) {
                Some(sc) => r == Ok::<ColorScheme, ConfigError>(sc),
                None => r == Err::<ColorScheme, ConfigError>(ConfigError::UnknownScheme),
            }
        }),
{
    let bs = s.as_bytes();
    let trimmed = trim_bytes(bs);
    let key = lower_bytes(trimmed.as_slice());
    if key.len() == 4 && key[0] == 117 && key[1] == 115 && key[2] == 101 && key[3] == 114 {
        proof {
            assert(key@ =~= seq![117u8, 115u8, 101u8, 114u8]);
        }
        return Ok(ColorScheme::User);
    }
    if key.len() == 5 && key[0] == 103 && key[1] == 114 && key[2] == 101 && key[3] == 101 && key[4] == 110 {
        proof {
            assert(key@ =~= seq![103u8, 114u8, 101u8, 101u8, 110u8]);
        }
        return Ok(ColorScheme::Green);
    }
    if key.len() == 6 && key[0] == 103 && key[1] == 114 && key[2] == 101 && key[3] == 101 && key[4] == 110 && key[5] == 50 {
        proof {
            assert(key@ =~= seq![103u8, 114u8, 101u8, 101u8, 110u8, 50u8]);
        }
        return Ok(ColorScheme::Green2);
    }
    if key.len() == 6 && key[0] == 103 && key[1] == 114 && key[2] == 101 && key[3] == 101 && key[4] == 110 && key[5] == 51 {
        proof {
            assert(key@ =~= seq![103u8, 114u8, 101u8, 101u8, 110u8, 51u8]);
        }
        return Ok(ColorScheme::Green3);
    }
    if key.len() == 6 && key[0] == 121 && key[1] == 101 && key[2] == 108 && key[3] == 108 && key[4] == 111 && key[5] == 119 {
        proof {
            assert(key@ =~= seq![121u8, 101u8, 108u8, 108u8, 111u8, 119u8]);
        }
        return Ok(ColorScheme::Yellow);
    }
    if key.len() == 6 && key[0] == 111 && key[1] == 114 && key[2] == 97 && key[3] == 110 && key[4] == 103 && key[5] == 101 {
        proof {
            assert(key@ =~= seq![111u8, 114u8, 97u8, 110u8, 103u8, 101u8]);
        }
        return Ok(ColorScheme::Orange);
    }
    if key.len() == 3 && key[0] == 114 && key[1] == 101 && key[2] == 100 {
        proof {
            assert(key@ =~= seq![114u8, 101u8, 100u8]);
        }
        return Ok(ColorScheme::Red);
    }
    if key.len() == 4 && key[0] == 98 && key[1] == 108 && key[2] == 117 && key[3] == 101 {
        proof {
            assert(key@ =~= seq![98u8, 108u8, 117u8, 101u8]);
        }
        return Ok(ColorScheme::Blue);
    }
    if key.len() == 4 && key[0] == 99 && key[1] == 121 && key[2] == 97 && key[3] == 110 {
        proof {
            assert(key@ =~= seq![99u8, 121u8, 97u8, 110u8]);
        }
        return Ok(ColorScheme::Cyan);
    }
    if key.len() == 4 && key[0] == 103 && key[1] == 111 && key[2] == 108 && key[3] == 100 {
        proof {
            assert(key@ =~= seq![103u8, 111u8, 108u8, 100u8]);
        }
        return Ok(ColorScheme::Gold);
    }
    if key.len() == 7 && key[0] == 114 && key[1] == 97 && key[2] == 105 && key[3] == 110 && key[4] == 98 && key[5] == 111 && key[6] == 119 {
        proof {
            assert(key@ =~= seq![114u8, 97u8, 105u8, 110u8, 98u8, 111u8, 119u8]);
        }
        return Ok(ColorScheme::Rainbow);
    }
    if key.len() == 6 && key[0] == 112 && key[1] == 117 && key[2] == 114 && key[3] == 112 && key[4] == 108 && key[5] == 101 {
        proof {
            assert(key@ =~= seq![112u8, 117u8, 114u8, 112u8, 108u8, 101u8]);
        }
        return Ok(ColorScheme::Purple);
    }
    if key.len() == 4 && key[0] == 112 && key[1] == 105 && key[2] == 110 && key[3] == 107 {
        proof {
            assert(key@ =~= seq![112u8, 105u8, 110u8, 107u8]);
        }
        return Ok(ColorScheme::Pink);
    }
    if key.len() == 5 && key[0] == 112 && key[1] == 105 && key[2] == 110 && key[3] == 107 && key[4] == 50 {
        proof {
            assert(key@ =~= seq![112u8, 105u8, 110u8, 107u8, 50u8]);
        }
        return Ok(ColorScheme::Pink2);
    }
    if key.len() == 9 && key[0] == 118 && key[1] == 97 && key[2] == 112 && key[3] == 111 && key[4] == 114 && key[5] == 119 && key[6] == 97 && key[7] == 118 && key[8] == 101 {
        proof {
            assert(key@ =~= seq![118u8, 97u8, 112u8, 111u8, 114u8, 119u8, 97u8, 118u8, 101u8]);
        }
        return Ok(ColorScheme::Vaporwave);
    }
    if key.len() == 4 && key[0] == 103 && key[1] == 114 && key[2] == 97 && key[3] == 121 {
        proof {
            assert(key@ =~= seq![103u8, 114u8, 97u8, 121u8]);
        }
        return Ok(ColorScheme::Gray);
    }
    if key.len() == 4 && key[0] == 103 && key[1] == 114 && key[2] == 101 && key[3] == 121 {
        proof {
            assert(key@ =~= seq![103u8, 114u8, 101u8, 121u8]);
        }
        return Ok(ColorScheme::Gray);
    }
    Err(ConfigError::UnknownScheme)
}

/// Whether `needle` occurs as a contiguous run inside `hay`.
pub open spec fn spec_contains_sub(hay: Seq<u8>, needle: Seq<u8>) -> bool {
    exists|i: int|
        0 <= i && i + needle.len() <= hay.len() && #[trigger] hay.subrange(i, i + needle.len())
            == needle
}

/// Whether `needle` occurs as a contiguous run inside `hay`.
pub fn contains_sub(hay: &[u8], needle: &[u8]) -> (r: bool)
    ensures
        r == spec_contains_sub(hay@, needle@),
{
    let m: usize = needle.len();
    let n: usize = hay.len();
    if m == 0 {
        proof {
            assert(hay@.subrange(0int, 0int + needle@.len() as int) =~= needle@);
            assert(spec_contains_sub(hay@, needle@));
        }
        return true;
    }
    if m > n {
        proof {
            assert(!spec_contains_sub(hay@, needle@));
        }
        return false;
    }
    let mut i: usize = 0;
    while i <= n - m
        invariant
            1 <= m <= n,
            n == hay@.len(),
            m == needle@.len(),
            i <= n - m + 1,
            forall|p: int|
                0 <= p < i as int ==> #[trigger] hay@.subrange(p, p + needle@.len()) != needle@,
        decreases n - m + 1 - i,
    {
        let mut k: usize = 0;
        let mut ok: bool = true;
        while k < m
            invariant
                i + m <= n,
                n == hay@.len(),
                m == needle@.len(),
                k <= m,
                ok ==> forall|q: int| 0 <= q < k as int ==> hay@[i + q] == needle@[q],
                !ok ==> hay@.subrange(i as int, i as int + needle@.len()) != needle@,
            decreases m - k,
        {
            if hay[i + k] != needle[k] {
                proof {
                    assert(hay@.subrange(i as int, i as int + needle@.len())[k as int] == hay@[i
                        + k]);
                }
                ok = false;
                k = m;
            } else {
                k = k + 1;
            }
        }
        if ok {
            proof {
                assert(hay@.subrange(i as int, i as int + needle@.len()) =~= needle@);
            }
            return true;
        }
        i = i + 1;
    }
    proof {
        assert forall|p: int|
            0 <= p && p + needle@.len() <= hay@.len() implies #[trigger] hay@.subrange(
            p,
            p + needle@.len(),
        ) != needle@ by {
            assert(p < i as int);
        }
    }
    false
}

/// The needle `truecolor`.
pub open spec fn spec_kw_truecolor() -> Seq<u8> {
    seq![116u8, 114u8, 117u8, 101u8, 99u8, 111u8, 108u8, 111u8, 114u8]
}

/// The needle `24bit`.
pub open spec fn spec_kw_24bit() -> Seq<u8> {
    seq![50u8, 52u8, 98u8, 105u8, 116u8]
}

/// The needle `256color`.
pub open spec fn spec_kw_256color() -> Seq<u8> {
    seq![50u8, 53u8, 54u8, 99u8, 111u8, 108u8, 111u8, 114u8]
}

/// The color mode the environment dictates: an explicit request wins
/// (0 mono, 16, 32 true-color, 256 and anything else 256-color); else a
/// `COLORTERM` naming true color, else a `TERM` naming 256 colors, else
/// plain 16 colors. The variables are compared case-insensitively.
pub open spec fn spec_detect_color_mode(
    colormode: Option<u16>,
    colorterm: Seq<u8>,
    term: Seq<u8>,
) -> ColorMode {
    match colormode {
        Some(m) => {
            if m == 0 {
                ColorMode::Mono
            } else if m == 16 {
                ColorMode::Color16
            } else if m == 32 {
                ColorMode::TrueColor
            } else {
                ColorMode::Color256
            }
        },
        None => {
            if spec_contains_sub(spec_lower(colorterm), spec_kw_truecolor()) || spec_contains_sub(
                spec_lower(colorterm),
                spec_kw_24bit(),
            ) {
                ColorMode::TrueColor
            } else if spec_contains_sub(spec_lower(term), spec_kw_256color()) {
                ColorMode::Color256
            } else {
                ColorMode::Color16
            }
        },
    }
}

/// Decide the color mode from an explicit request and the `COLORTERM`
/// and `TERM` environment values.
pub fn detect_color_mode(colormode: Option<u16>, colorterm: &str, term: &str) -> (r: ColorMode)
    ensures
        r == spec_detect_color_mode(colormode, colorterm.spec_bytes(), term.spec_bytes()),
{
    match colormode {
        Some(m) => {
            if m == 0 {
                ColorMode::Mono
            } else if m == 16 {
                ColorMode::Color16
            } else if m == 32 {
                ColorMode::TrueColor
            } else {
                ColorMode::Color256
            }
        },
        None => {
            let ct = lower_bytes(colorterm.as_bytes());
            let mut kw: Vec<u8> = Vec::new();
            kw.push(116);
            kw.push(114);
            kw.push(117);
            kw.push(101);
            kw.push(99);
            kw.push(111);
            kw.push(108);
            kw.push(111);
            kw.push(114);
            proof {
                assert(kw@ =~= spec_kw_truecolor());
            }
            let mut kw2: Vec<u8> = Vec::new();
            kw2.push(50);
            kw2.push(52);
            kw2.push(98);
            kw2.push(105);
            kw2.push(116);
            proof {
                assert(kw2@ =~= spec_kw_24bit());
            }
            if contains_sub(ct.as_slice(), kw.as_slice()) || contains_sub(
                ct.as_slice(),
                kw2.as_slice(),
            ) {
                return ColorMode::TrueColor;
            }
            let tm = lower_bytes(term.as_bytes());
            let mut kw3: Vec<u8> = Vec::new();
            kw3.push(50);
            kw3.push(53);
            kw3.push(54);
            kw3.push(99);
            kw3.push(111);
            kw3.push(108);
            kw3.push(111);
            kw3.push(114);
            proof {
                assert(kw3@ =~= spec_kw_256color());
            }
            if contains_sub(tm.as_slice(), kw3.as_slice()) {
                return ColorMode::Color256;
            }
            ColorMode::Color16
        },
    }
}

/// The needle `neo_color_version`.
pub open spec fn spec_kw_color_version() -> Seq<u8> {
    seq![110u8, 101u8, 111u8, 95u8, 99u8, 111u8, 108u8, 111u8, 114u8, 95u8, 118u8, 101u8, 114u8,
        115u8, 105u8, 111u8, 110u8]
}

/// Whether a color file line is skipped: blank once trimmed, a comment
/// (first byte `;`, `#`, `/`, `*` or `@`), or a version marker.
pub open spec fn spec_line_skipped(l: Seq<u8>) -> bool {
    let t = spec_trim(l);
    ||| t.len() == 0
    ||| t[0] == 59 || t[0] == 35 || t[0] == 47 || t[0] == 42 || t[0] == 64
    ||| spec_contains_sub(t, spec_kw_color_version())
}

/// The trimmed comma-separated fields of a trimmed color file line.
pub open spec fn spec_line_fields(l: Seq<u8>) -> Seq<Seq<u8>> {
    spec_split(spec_trim(l), 44).map(|i: int, f: Seq<u8>| spec_trim(f))
}

/// The color one file line denotes: the index clamped to a byte, and,
/// when at least four fields stand on the line, an RGB triple.
pub open spec fn spec_line_color(l: Seq<u8>) -> UserColor {
    let fs = spec_line_fields(l);
    let idx = spec_num_val(fs[0]);
    UserColor {
        index: (if idx > 255 {
            255int
        } else {
            idx
        }) as u8,
        rgb_1000: if fs.len() >= 4 {
            Some(
                Rgb1000 {
                    r: spec_num_val(fs[1]) as u16,
                    g: spec_num_val(fs[2]) as u16,
                    b: spec_num_val(fs[3]) as u16,
                },
            )
        } else {
            None
        },
    }
}

/// Whether a non-skipped line is well formed: its first field is a
/// 16-bit number, and its channels are 16-bit numbers when present.
pub open spec fn spec_line_index_ok(l: Seq<u8>) -> bool {
    spec_u16_ok(spec_line_fields(l)[0])
}

/// Whether the RGB channels of a line parse, when the line has them.
pub open spec fn spec_line_channels_ok(l: Seq<u8>) -> bool {
    let fs = spec_line_fields(l);
    fs.len() >= 4 ==> spec_u16_ok(fs[1]) && spec_u16_ok(fs[2]) && spec_u16_ok(fs[3])
}

/// The colors a list of file lines denotes, or the first rejection.
pub open spec fn spec_user_colors_of(lines: Seq<Seq<u8>>) -> Result<Seq<UserColor>, ConfigError>
    decreases lines.len(),
{
    if lines.len() == 0 {
        Ok(Seq::empty())
    } else if spec_line_skipped(lines[0]) {
        spec_user_colors_of(lines.drop_first())
    } else if !spec_line_index_ok(lines[0]) {
        Err(ConfigError::InvalidColorIndex)
    } else if !spec_line_channels_ok(lines[0]) {
        Err(ConfigError::InvalidChannel)
    } else {
        match spec_user_colors_of(lines.drop_first()) {
            Ok(rest) => Ok(seq![spec_line_color(lines[0])] + rest),
            Err(e) => Err(e),
        }
    }
}

/// Parse the text of a user color file: one color per line, blank and
/// comment lines skipped, each line a numeric index and optionally
/// three RGB channels scaled to 0..=1000; at least two colors must
/// remain.
pub fn parse_user_colors(content: &str) -> (r: Result<UserColors, ConfigError>)
    ensures
        ({
            let lines = spec_split(content.spec_bytes(), 10);
            match spec_user_colors_of(lines) {
                Ok(cs) => {
                    if cs.len() < 2 {
                        r == Err::<UserColors, ConfigError>(ConfigError::TooFewColors)
                    } else {
                        r matches Ok(u) && u.colors@ == cs
                    }
                },
                Err(e) => r == Err::<UserColors, ConfigError>(e),
            }
        }),
{
    let bs = content.as_bytes();
    let parts = split_bytes(bs, 10);
    let ghost lines = spec_split(content.spec_bytes(), 10);
    proof {
        assert(lines == parts@.map(|i: int, t: Vec<u8>| t@));
        assert(lines.skip(0) =~= lines);
    }
    let mut out: Vec<UserColor> = Vec::new();
    let n: usize = parts.len();
    let mut i: usize = 0;
    while i < n
        invariant
            i <= n,
            n == lines.len(),
            lines == spec_split(content.spec_bytes(), 10),
            lines == parts@.map(|j: int, t: Vec<u8>| t@),
            match spec_user_colors_of(lines.skip(i as int)) {
                Ok(rest) => spec_user_colors_of(lines) == Ok::<Seq<UserColor>, ConfigError>(
                    out@ + rest,
                ),
                Err(e) => spec_user_colors_of(lines) == Err::<Seq<UserColor>, ConfigError>(e),
            },
        decreases n - i,
    {
        proof {
            assert(parts@.map(|j: int, t: Vec<u8>| t@)[i as int] == parts@[i as int]@);
            assert(lines.skip(i as int)[0] == lines[i as int]);
            assert(lines.skip(i as int).drop_first() =~= lines.skip(i + 1));
        }
        let line = trim_bytes(parts[i].as_slice());
        let mut skipped: bool = line.len() == 0;
        if !skipped {
            let b0 = line[0];
            if b0 == 59 || b0 == 35 || b0 == 47 || b0 == 42 || b0 == 64 {
                skipped = true;
            }
        }
        if !skipped {
            let mut kw: Vec<u8> = Vec::new();
            kw.push(110);
            kw.push(101);
            kw.push(111);
            kw.push(95);
            kw.push(99);
            kw.push(111);
            kw.push(108);
            kw.push(111);
            kw.push(114);
            kw.push(95);
            kw.push(118);
            kw.push(101);
            kw.push(114);
            kw.push(115);
            kw.push(105);
            kw.push(111);
            kw.push(110);
            proof {
                assert(kw@ =~= spec_kw_color_version());
            }
            if contains_sub(line.as_slice(), kw.as_slice()) {
                skipped = true;
            }
        }
        proof {
            assert(skipped == spec_line_skipped(lines[i as int]));
        }
        if !skipped {
            let fields = split_bytes(line.as_slice(), 44);
            let ghost fs = spec_line_fields(lines[i as int]);
            proof {
                crate::text::lemma_spec_split_len(line@, 44);
                assert(fs == fields@.map(|j: int, t: Vec<u8>| t@).map(
                    |j: int, f: Seq<u8>| spec_trim(f),
                ));
                assert(fs[0] == spec_trim(fields@[0]@));
                assert(fs.len() == fields@.len());
            }
            let f0 = trim_bytes(fields[0].as_slice());
            let idx: u16 = match parse_dec_u16(f0.as_slice()) {
                Some(v) => v,
                None => {
                    return Err(ConfigError::InvalidColorIndex);
                },
            };
            let index: u8 = if idx > 255 {
                255
            } else {
                idx as u8
            };
            let rgb: Option<Rgb1000> = if fields.len() >= 4 {
                proof {
                    assert(fs[1] == spec_trim(fields@[1]@));
                    assert(fs[2] == spec_trim(fields@[2]@));
                    assert(fs[3] == spec_trim(fields@[3]@));
                }
                let f1 = trim_bytes(fields[1].as_slice());
                let f2 = trim_bytes(fields[2].as_slice());
                let f3 = trim_bytes(fields[3].as_slice());
                let rv: u16 = match parse_dec_u16(f1.as_slice()) {
                    Some(v) => v,
                    None => {
                        return Err(ConfigError::InvalidChannel);
                    },
                };
                let gv: u16 = match parse_dec_u16(f2.as_slice()) {
                    Some(v) => v,
                    None => {
                        return Err(ConfigError::InvalidChannel);
                    },
                };
                let bv: u16 = match parse_dec_u16(f3.as_slice()) {
                    Some(v) => v,
                    None => {
                        return Err(ConfigError::InvalidChannel);
                    },
                };
                Some(Rgb1000 { r: rv, g: gv, b: bv })
            } else {
                None
            };
            let ghost pre = out@;
            out.push(UserColor { index, rgb_1000: rgb });
            proof {
                assert(out@[out@.len() - 1] == spec_line_color(lines[i as int]));
                assert(out@ =~= pre + seq![spec_line_color(lines[i as int])]);
                assert(forall|rest: Seq<UserColor>|
                    pre + (seq![spec_line_color(lines[i as int])] + rest) =~= (pre + seq![
                        spec_line_color(lines[i as int]),
                    ]) + rest);
            }
        }
        i = i + 1;
    }
    proof {
        assert(lines.skip(n as int) =~= Seq::<Seq<u8>>::empty());
        assert(out@ + Seq::<UserColor>::empty() =~= out@);
    }
    if out.len() < 2 {
        return Err(ConfigError::TooFewColors);
    }
    Ok(UserColors { colors: out })
}

} // verus!
