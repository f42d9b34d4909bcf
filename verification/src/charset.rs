use vstd::prelude::*;

use vstd::string::StringSliceAdditionalSpecFns;

use crate::text::{spec_lower, spec_split, spec_strip_plus, spec_trim, lower_bytes,
    split_bytes, sub_bytes, trim_bytes};

verus! {

/// Character-class bits: which alphabets the active charset includes.
pub const CS_NONE: u32 = 0;

pub const CS_ENGLISH_LETTERS: u32 = 0x1;

pub const CS_ENGLISH_DIGITS: u32 = 0x2;

pub const CS_ENGLISH_PUNCTUATION: u32 = 0x4;

pub const CS_KATAKANA: u32 = 0x8;

pub const CS_GREEK: u32 = 0x10;

pub const CS_CYRILLIC: u32 = 0x20;

pub const CS_ARABIC: u32 = 0x40;

pub const CS_HEBREW: u32 = 0x80;

pub const CS_BINARY: u32 = 0x100;

pub const CS_HEX: u32 = 0x200;

pub const CS_DEVANAGARI: u32 = 0x400;

pub const CS_BRAILLE: u32 = 0x800;

pub const CS_RUNIC: u32 = 0x1000;

/// The plain ASCII default: letters, digits and punctuation.
pub const CS_DEFAULT: u32 = 0x7;

/// The extended default: digits, punctuation and katakana.
pub const CS_EXTENDED_DEFAULT: u32 = 0xE;

/// A set of character classes, as a bit mask over the `CS_` bits.
#[derive(Clone, Copy, Debug, PartialEq, Eq, Structural)]
pub struct Charset(pub u32);

impl Charset {
    /// Whether this charset includes any class of `other`.
    pub fn contains(self, other: Charset) -> (r: bool)
        ensures
            r == ((self.0 & other.0) != 0),
    {
        (self.0 & other.0) != 0
    }

    /// The union of two charsets.
    pub fn or(self, other: Charset) -> (r: Charset)
        ensures
            r.0 == (self.0 | other.0),
    {
        Charset(self.0 | other.0)
    }
}

/// A list of inclusive character ranges.
#[derive(Clone, Debug)]
pub struct CharRanges {
    pub ranges: Vec<CharRange>,
}

/// One inclusive character range.
#[derive(Clone, Copy, Debug, PartialEq, Eq, Structural)]
pub struct CharRange {
    pub lo: char,
    pub hi: char,
}

/// Why a charset or character specifier was rejected.
#[derive(Clone, Copy, Debug, PartialEq, Eq, Structural)]
pub enum CharsetError {
    /// The charset name is not one of the known keywords.
    UnknownCharset,
    /// The comma-separated entry at this 1-based position is not a
    /// hexadecimal number that fits 32 bits.
    InvalidHex(usize),
    /// The entry at this 1-based position is a number but not a unicode
    /// scalar value.
    InvalidScalar(usize),
}

impl CharsetError {
    /// A short description of the rejection.
    pub fn message(&self) -> (r: &'static str)
        ensures
            true,
    {
        match self {
            CharsetError::UnknownCharset => "unsupported charset",
            CharsetError::InvalidHex(_) => "invalid hex char",
            CharsetError::InvalidScalar(_) => "invalid unicode scalar",
        }
    }
}

/// The charset a trimmed, lowered keyword denotes, or none.
pub open spec fn spec_charset_of(key: Seq<u8>, default_to_ascii: bool) -> Option<u32> {
    if key == seq![97u8, 117u8, 116u8, 111u8] {  // "auto"
        Some(if default_to_ascii { CS_DEFAULT } else { CS_EXTENDED_DEFAULT })
    } else
    if key == seq![97u8, 115u8, 99u8, 105u8, 105u8] {  // "ascii"
        Some(CS_DEFAULT)
    } else
    if key == seq![101u8, 120u8, 116u8, 101u8, 110u8, 100u8, 101u8, 100u8] {  // "extended"
        Some(CS_EXTENDED_DEFAULT)
    } else
    if key == seq![101u8, 110u8, 103u8, 108u8, 105u8, 115u8, 104u8] {  // "english"
        Some(CS_ENGLISH_LETTERS)
    } else
    if key == seq![100u8, 105u8, 103u8, 105u8, 116u8, 115u8] {  // "digits"
        Some(CS_ENGLISH_DIGITS)
    } else
    if key == seq![100u8, 101u8, 99u8] {  // "dec"
        Some(CS_ENGLISH_DIGITS)
    } else
    if key == seq![100u8, 101u8, 99u8, 105u8, 109u8, 97u8, 108u8] {  // "decimal"
        Some(CS_ENGLISH_DIGITS)
    } else
    if key == seq![112u8, 117u8, 110u8, 99u8] {  // "punc"
        Some(CS_ENGLISH_PUNCTUATION)
    } else
    if key == seq![98u8, 105u8, 110u8] {  // "bin"
        Some(CS_BINARY)
    } else
    if key == seq![98u8, 105u8, 110u8, 97u8, 114u8, 121u8] {  // "binary"
        Some(CS_BINARY)
    } else
    if key == seq![104u8, 101u8, 120u8] {  // "hex"
        Some(CS_HEX)
    } else
    if key == seq![104u8, 101u8, 120u8, 97u8, 100u8, 101u8, 99u8, 105u8, 109u8, 97u8, 108u8] {  // "hexadecimal"
        Some(CS_HEX)
    } else
    if key == seq![107u8, 97u8, 116u8, 97u8, 107u8, 97u8, 110u8, 97u8] {  // "katakana"
        Some(CS_KATAKANA)
    } else
    if key == seq![103u8, 114u8, 101u8, 101u8, 107u8] {  // "greek"
        Some(CS_GREEK)
    } else
    if key == seq![99u8, 121u8, 114u8, 105u8, 108u8, 108u8, 105u8, 99u8] {  // "cyrillic"
        Some(CS_CYRILLIC)
    } else
    if key == seq![97u8, 114u8, 97u8, 98u8, 105u8, 99u8] {  // "arabic"
        Some(CS_ARABIC)
    } else
    if key == seq![104u8, 101u8, 98u8, 114u8, 101u8, 119u8] {  // "hebrew"
        Some(CS_HEBREW)
    } else
    if key == seq![100u8, 101u8, 118u8, 97u8, 110u8, 97u8, 103u8, 97u8, 114u8, 105u8] {  // "devanagari"
        Some(CS_DEVANAGARI)
    } else
    if key == seq![98u8, 114u8, 97u8, 105u8, 108u8, 108u8, 101u8] {  // "braille"
        Some(CS_BRAILLE)
    } else
    if key == seq![114u8, 117u8, 110u8, 105u8, 99u8] {  // "runic"
        Some(CS_RUNIC)
    } else {
        None
    }
}

/// Parse a charset name: the name is trimmed and lowered, then looked
/// up among the known keywords; `auto` picks the plain or extended
/// default from `default_to_ascii`.
pub fn charset_from_str(name: &str, default_to_ascii: bool) -> (r: Result<Charset, CharsetError>)
    ensures
        ({
            let key = spec_lower(spec_trim(name.spec_bytes()));
            match spec_charset_of(key, default_to_ascii) {
                Some(bits) => r == Ok::<Charset, CharsetError>(Charset(bits)),
                None => r == Err::<Charset, CharsetError>(CharsetError::UnknownCharset),
            }
        }),
{
    let bs = name.as_bytes();
    let trimmed = trim_bytes(bs);
    let key = lower_bytes(trimmed.as_slice());
    if key.len() == 4 && key[0] == 97 && key[1] == 117 && key[2] == 116 && key[3] == 111 {
        proof {
            assert(key@ =~= seq![97u8, 117u8, 116u8, 111u8]);
        }
        return Ok(Charset(if default_to_ascii { CS_DEFAULT } else { CS_EXTENDED_DEFAULT }));
    }
    if key.len() == 5 && key[0] == 97 && key[1] == 115 && key[2] == 99 && key[3] == 105 && key[4] == 105 {
        proof {
            assert(key@ =~= seq![97u8, 115u8, 99u8, 105u8, 105u8]);
        }
        return Ok(Charset(CS_DEFAULT));
    }
    if key.len() == 8 && key[0] == 101 && key[1] == 120 && key[2] == 116 && key[3] == 101 && key[4] == 110 && key[5] == 100 && key[6] == 101 && key[7] == 100 {
        proof {
            assert(key@ =~= seq![101u8, 120u8, 116u8, 101u8, 110u8, 100u8, 101u8, 100u8]);
        }
        return Ok(Charset(CS_EXTENDED_DEFAULT));
    }
    if key.len() == 7 && key[0] == 101 && key[1] == 110 && key[2] == 103 && key[3] == 108 && key[4] == 105 && key[5] == 115 && key[6] == 104 {
        proof {
            assert(key@ =~= seq![101u8, 110u8, 103u8, 108u8, 105u8, 115u8, 104u8]);
        }
        return Ok(Charset(CS_ENGLISH_LETTERS));
    }
    if key.len() == 6 && key[0] == 100 && key[1] == 105 && key[2] == 103 && key[3] == 105 && key[4] == 116 && key[5] == 115 {
        proof {
            assert(key@ =~= seq![100u8, 105u8, 103u8, 105u8, 116u8, 115u8]);
        }
        return Ok(Charset(CS_ENGLISH_DIGITS));
    }
    if key.len() == 3 && key[0] == 100 && key[1] == 101 && key[2] == 99 {
        proof {
            assert(key@ =~= seq![100u8, 101u8, 99u8]);
        }
        return Ok(Charset(CS_ENGLISH_DIGITS));
    }
    if key.len() == 7 && key[0] == 100 && key[1] == 101 && key[2] == 99 && key[3] == 105 && key[4] == 109 && key[5] == 97 && key[6] == 108 {
        proof {
            assert(key@ =~= seq![100u8, 101u8, 99u8, 105u8, 109u8, 97u8, 108u8]);
        }
        return Ok(Charset(CS_ENGLISH_DIGITS));
    }
    if key.len() == 4 && key[0] == 112 && key[1] == 117 && key[2] == 110 && key[3] == 99 {
        proof {
            assert(key@ =~= seq![112u8, 117u8, 110u8, 99u8]);
        }
        return Ok(Charset(CS_ENGLISH_PUNCTUATION));
    }
    if key.len() == 3 && key[0] == 98 && key[1] == 105 && key[2] == 110 {
        proof {
            assert(key@ =~= seq![98u8, 105u8, 110u8]);
        }
        return Ok(Charset(CS_BINARY));
    }
    if key.len() == 6 && key[0] == 98 && key[1] == 105 && key[2] == 110 && key[3] == 97 && key[4] == 114 && key[5] == 121 {
        proof {
            assert(key@ =~= seq![98u8, 105u8, 110u8, 97u8, 114u8, 121u8]);
        }
        return Ok(Charset(CS_BINARY));
    }
    if key.len() == 3 && key[0] == 104 && key[1] == 101 && key[2] == 120 {
        proof {
            assert(key@ =~= seq![104u8, 101u8, 120u8]);
        }
        return Ok(Charset(CS_HEX));
    }
    if key.len() == 11 && key[0] == 104 && key[1] == 101 && key[2] == 120 && key[3] == 97 && key[4] == 100 && key[5] == 101 && key[6] == 99 && key[7] == 105 && key[8] == 109 && key[9] == 97 && key[10] == 108 {
        proof {
            assert(key@ =~= seq![104u8, 101u8, 120u8, 97u8, 100u8, 101u8, 99u8, 105u8, 109u8, 97u8, 108u8]);
        }
        return Ok(Charset(CS_HEX));
    }
    if key.len() == 8 && key[0] == 107 && key[1] == 97 && key[2] == 116 && key[3] == 97 && key[4] == 107 && key[5] == 97 && key[6] == 110 && key[7] == 97 {
        proof {
            assert(key@ =~= seq![107u8, 97u8, 116u8, 97u8, 107u8, 97u8, 110u8, 97u8]);
        }
        return Ok(Charset(CS_KATAKANA));
    }
    if key.len() == 5 && key[0] == 103 && key[1] == 114 && key[2] == 101 && key[3] == 101 && key[4] == 107 {
        proof {
            assert(key@ =~= seq![103u8, 114u8, 101u8, 101u8, 107u8]);
        }
        return Ok(Charset(CS_GREEK));
    }
    if key.len() == 8 && key[0] == 99 && key[1] == 121 && key[2] == 114 && key[3] == 105 && key[4] == 108 && key[5] == 108 && key[6] == 105 && key[7] == 99 {
        proof {
            assert(key@ =~= seq![99u8, 121u8, 114u8, 105u8, 108u8, 108u8, 105u8, 99u8]);
        }
        return Ok(Charset(CS_CYRILLIC));
    }
    if key.len() == 6 && key[0] == 97 && key[1] == 114 && key[2] == 97 && key[3] == 98 && key[4] == 105 && key[5] == 99 {
        proof {
            assert(key@ =~= seq![97u8, 114u8, 97u8, 98u8, 105u8, 99u8]);
        }
        return Ok(Charset(CS_ARABIC));
    }
    if key.len() == 6 && key[0] == 104 && key[1] == 101 && key[2] == 98 && key[3] == 114 && key[4] == 101 && key[5] == 119 {
        proof {
            assert(key@ =~= seq![104u8, 101u8, 98u8, 114u8, 101u8, 119u8]);
        }
        return Ok(Charset(CS_HEBREW));
    }
    if key.len() == 10 && key[0] == 100 && key[1] == 101 && key[2] == 118 && key[3] == 97 && key[4] == 110 && key[5] == 97 && key[6] == 103 && key[7] == 97 && key[8] == 114 && key[9] == 105 {
        proof {
            assert(key@ =~= seq![100u8, 101u8, 118u8, 97u8, 110u8, 97u8, 103u8, 97u8, 114u8, 105u8]);
        }
        return Ok(Charset(CS_DEVANAGARI));
    }
    if key.len() == 7 && key[0] == 98 && key[1] == 114 && key[2] == 97 && key[3] == 105 && key[4] == 108 && key[5] == 108 && key[6] == 101 {
        proof {
            assert(key@ =~= seq![98u8, 114u8, 97u8, 105u8, 108u8, 108u8, 101u8]);
        }
        return Ok(Charset(CS_BRAILLE));
    }
    if key.len() == 5 && key[0] == 114 && key[1] == 117 && key[2] == 110 && key[3] == 105 && key[4] == 99 {
        proof {
            assert(key@ =~= seq![114u8, 117u8, 110u8, 105u8, 99u8]);
        }
        return Ok(Charset(CS_RUNIC));
    }
    Err(CharsetError::UnknownCharset)
}

/// The value of one ASCII hex digit, or -1.
pub open spec fn spec_hex_digit_val(b: u8) -> int {
    if 48 <= b <= 57 {
        b - 48
    } else if 97 <= b <= 102 {
        b - 87
    } else if 65 <= b <= 70 {
        b - 55
    } else {
        -1
    }
}

/// Whether `bs` is one or more ASCII hex digits.
pub open spec fn spec_all_hex(bs: Seq<u8>) -> bool {
    bs.len() >= 1 && forall|i: int| 0 <= i < bs.len() ==> spec_hex_digit_val(bs[i]) >= 0
}

/// The number the hex digits `bs` denote, most significant first.
pub open spec fn spec_hex_val(bs: Seq<u8>) -> int
    decreases bs.len(),
{
    if bs.len() == 0 {
        0
    } else {
        let d = spec_hex_digit_val(bs.last());
        spec_hex_val(bs.drop_last()) * 16 + (if d >= 0 {
            d
        } else {
            0
        })
    }
}

/// Whether a code point is a unicode scalar value.
pub open spec fn spec_scalar_ok(v: int) -> bool {
    (0 <= v < 0xD800) || (0xE000 <= v <= 0x10FFFF)
}

/// Whether a comma-separated entry is skipped: blank once trimmed.
pub open spec fn spec_token_skipped(t: Seq<u8>) -> bool {
    spec_trim(t).len() == 0
}

/// The number an entry denotes: its digits after trimming and after
/// one tolerated leading plus sign.
pub open spec fn spec_token_val(t: Seq<u8>) -> int {
    spec_hex_val(spec_strip_plus(spec_trim(t)))
}

/// Whether an entry is a hex number that fits 32 bits.
pub open spec fn spec_token_hex_ok(t: Seq<u8>) -> bool {
    &&& spec_all_hex(spec_strip_plus(spec_trim(t)))
    &&& spec_token_val(t) <= u32::MAX
}

/// Whether an entry denotes a unicode scalar value.
pub open spec fn spec_token_ok(t: Seq<u8>) -> bool {
    spec_token_hex_ok(t) && spec_scalar_ok(spec_token_val(t))
}

/// The code points a list of entries denotes, blanks skipped.
pub open spec fn spec_hex_cps(toks: Seq<Seq<u8>>) -> Seq<int>
    decreases toks.len(),
{
    if toks.len() == 0 {
        Seq::empty()
    } else {
        let rest = spec_hex_cps(toks.drop_first());
        if spec_token_skipped(toks[0]) {
            rest
        } else {
            seq![spec_token_val(toks[0])] + rest
        }
    }
}

/// A hex value is never negative.
proof fn lemma_hex_val_nonneg(bs: Seq<u8>)
    ensures
        spec_hex_val(bs) >= 0,
    decreases bs.len(),
{
    if bs.len() > 0 {
        lemma_hex_val_nonneg(bs.drop_last());
    }
}

/// Relies on std's `char::from_u32`: `Some` exactly on unicode scalar
/// values, and the returned character has the given code point.
#[verifier::external_body]
pub fn char_from_u32(v: u32) -> (r: Option<char>)
    ensures
        r is Some <==> spec_scalar_ok(v as int),
        r matches Some(c) ==> c as int == v as int,
{
    char::from_u32(v)
}

/// Parse one trimmed entry as a 32-bit hex number; one leading plus
/// sign is tolerated.
fn parse_hex_u32(ts: &[u8]) -> (r: Option<u32>)
    ensures
        r is Some <==> (spec_all_hex(spec_strip_plus(ts@)) && spec_hex_val(spec_strip_plus(ts@))
            <= u32::MAX),
        r matches Some(v) ==> v as int == spec_hex_val(spec_strip_plus(ts@)),
{
    let body: Vec<u8> = if ts.len() >= 1 && ts[0] == 43 {
        sub_bytes(ts, 1, ts.len())
    } else {
        sub_bytes(ts, 0, ts.len())
    };
    proof {
        assert(body@ =~= spec_strip_plus(ts@));
    }
    let t = body.as_slice();
    if t.len() == 0 {
        return None;
    }
    let mut acc: u64 = 0;
    let mut i: usize = 0;
    while i < t.len()
        invariant
            i <= t@.len(),
            t@.len() >= 1,
            t@ == spec_strip_plus(ts@),
            acc <= u32::MAX,
            acc as int == spec_hex_val(t@.take(i as int)),
            forall|j: int| 0 <= j < i as int ==> spec_hex_digit_val(t@[j]) >= 0,
        decreases t@.len() - i,
    {
        let b = t[i];
        let d: u64 = if 48 <= b && b <= 57 {
            (b - 48) as u64
        } else if 97 <= b && b <= 102 {
            (b - 87) as u64
        } else if 65 <= b && b <= 70 {
            (b - 55) as u64
        } else {
            return None;
        };
        proof {
            assert(t@.take(i + 1).drop_last() =~= t@.take(i as int));
            assert(t@.take(i + 1).last() == t@[i as int]);
        }
        let next: u64 = acc * 16 + d;
        if next > 0xffffffff {
            proof {
                lemma_hex_val_grows(t@, i + 1);
            }
            return None;
        }
        acc = next;
        i = i + 1;
    }
    proof {
        assert(t@.take(t@.len() as int) =~= t@);
    }
    Some(acc as u32)
}

/// A hex value only grows as more digits follow.
proof fn lemma_hex_val_grows(bs: Seq<u8>, k: int)
    requires
        0 <= k <= bs.len(),
    ensures
        spec_hex_val(bs) >= spec_hex_val(bs.take(k)),
    decreases bs.len() - k,
{
    lemma_hex_val_nonneg(bs.take(k));
    if k < bs.len() {
        lemma_hex_val_grows(bs, k + 1);
        assert(bs.take(k + 1).drop_last() =~= bs.take(k));
        assert(spec_hex_val(bs.take(k + 1)) >= spec_hex_val(bs.take(k)));
    } else {
        assert(bs.take(k) =~= bs);
    }
}

/// Parse a comma-separated list of hexadecimal code points into
/// characters; blank entries are skipped, and the first entry that is
/// not a hex number — or not a unicode scalar — is reported with its
/// 1-based position.
pub fn parse_user_hex_chars(s: &str) -> (r: Result<Vec<char>, CharsetError>)
    ensures
        ({
            let toks = spec_split(s.spec_bytes(), 44);
            &&& (r is Ok <==> forall|i: int| 0 <= i < toks.len() ==> spec_token_ok(toks[i])
                || spec_token_skipped(toks[i]))
            &&& (r matches Ok(v) ==> v@.map_values(|c: char| c as int) == spec_hex_cps(toks))
            &&& (r matches Err(e) ==> match e {
                CharsetError::InvalidHex(ix) => {
                    &&& 1 <= ix <= toks.len()
                    &&& !spec_token_hex_ok(toks[ix - 1])
                    &&& !spec_token_skipped(toks[ix - 1])
                },
                CharsetError::InvalidScalar(ix) => {
                    &&& 1 <= ix <= toks.len()
                    &&& spec_token_hex_ok(toks[ix - 1])
                    &&& !spec_scalar_ok(spec_token_val(toks[ix - 1]))
                },
                CharsetError::UnknownCharset => false,
            })
        }),
{
    let bs = s.as_bytes();
    let parts = split_bytes(bs, 44);
    let ghost toks = spec_split(s.spec_bytes(), 44);
    proof {
        assert(toks == parts@.map(|i: int, t: Vec<u8>| t@));
    }
    let mut out: Vec<char> = Vec::new();
    let n: usize = parts.len();
    proof {
        assert(toks.skip(0) =~= toks);
        assert(out@.map_values(|c: char| c as int) =~= Seq::<int>::empty());
    }
    let mut i: usize = 0;
    while i < n
        invariant
            i <= n,
            n == toks.len(),
            toks == spec_split(s.spec_bytes(), 44),
            toks == parts@.map(|j: int, t: Vec<u8>| t@),
            forall|j: int|
                0 <= j < i as int ==> spec_token_ok(#[trigger] toks[j]) || spec_token_skipped(
                    toks[j],
                ),
            out@.map_values(|c: char| c as int) + spec_hex_cps(toks.skip(i as int))
                =~= spec_hex_cps(toks),
        decreases n - i,
    {
        let t = trim_bytes(parts[i].as_slice());
        proof {
            assert(parts@.map(|j: int, t: Vec<u8>| t@)[i as int] == parts@[i as int]@);
            assert(toks.skip(i as int)[0] == toks[i as int]);
            assert(toks.skip(i as int).drop_first() =~= toks.skip(i + 1));
        }
        if t.len() > 0 {
            match parse_hex_u32(t.as_slice()) {
                Some(v) => {
                    match char_from_u32(v) {
                        Some(c) => {
                            let ghost pre_map = out@.map_values(|c: char| c as int);
                            out.push(c);
                            proof {
                                assert(out@.map_values(|c: char| c as int) =~= pre_map.push(
                                    c as int,
                                ));
                                assert(c as int == spec_token_val(toks[i as int]));
                                assert(out@.map_values(|c: char| c as int) + spec_hex_cps(
                                    toks.skip(i + 1),
                                ) =~= pre_map + spec_hex_cps(toks.skip(i as int)));
                                assert(out@.map_values(|c: char| c as int) + spec_hex_cps(
                                    toks.skip(i + 1),
                                ) =~= spec_hex_cps(toks));
                            }
                        },
                        None => {
                            proof {
                                assert(t@ == spec_trim(toks[i as int]));
                                assert(spec_token_hex_ok(toks[i as int]));
                                assert(!spec_token_skipped(toks[i as int]));
                                assert(!(spec_token_ok(toks[i as int]) || spec_token_skipped(
                                    toks[i as int],
                                )));
                                assert(!spec_scalar_ok(spec_token_val(toks[i as int])));
                            }
                            return Err(CharsetError::InvalidScalar(i + 1));
                        },
                    }
                },
                None => {
                    proof {
                        assert(t@ == spec_trim(toks[i as int]));
                        assert(!spec_token_hex_ok(toks[i as int]));
                        assert(!spec_token_skipped(toks[i as int]));
                        assert(!(spec_token_ok(toks[i as int]) || spec_token_skipped(
                            toks[i as int],
                        )));
                    }
                    return Err(CharsetError::InvalidHex(i + 1));
                },
            }
        } else {
            proof {
                assert(out@.map_values(|c: char| c as int) + spec_hex_cps(toks.skip(i + 1))
                    =~= spec_hex_cps(toks));
            }
        }
        i = i + 1;
    }
    proof {
        assert(toks.skip(n as int) =~= Seq::<Seq<u8>>::empty());
        assert(out@.map_values(|c: char| c as int) =~= spec_hex_cps(toks));
    }
    Ok(out)
}

/// The unicode scalar values in `[lo, hi]`, surrogates skipped.
pub open spec fn spec_range_cps(lo: int, hi: int) -> Seq<int>
    decreases hi - lo + 1,
{
    if lo > hi || hi < 0 {
        Seq::empty()
    } else if spec_scalar_ok(lo) {
        seq![lo] + spec_range_cps(lo + 1, hi)
    } else {
        spec_range_cps(lo + 1, hi)
    }
}

/// Append every unicode scalar in `[start, end]` to `out`.
pub fn push_range(out: &mut Vec<char>, start: u32, end: u32)
    ensures
        final(out)@.map_values(|c: char| c as int) == old(out)@.map_values(|c: char| c as int)
            + spec_range_cps(start as int, end as int),
{
    let ghost base = old(out)@.map_values(|c: char| c as int);
    if start > end {
        proof {
            assert(base + spec_range_cps(start as int, end as int) =~= base);
        }
        return ;
    }
    let mut v: u32 = start;
    while v < end
        invariant
            start as int <= v as int <= end as int,
            base == old(out)@.map_values(|c: char| c as int),
            base + spec_range_cps(start as int, end as int) =~= out@.map_values(
                |c: char| c as int,
            ) + spec_range_cps(v as int, end as int),
        decreases end as int - v,
    {
        let ghost pre = out@.map_values(|c: char| c as int);
        match char_from_u32(v) {
            Some(c) => {
                out.push(c);
                proof {
                    assert(out@.map_values(|c: char| c as int) =~= pre.push(c as int));
                    assert(base + spec_range_cps(start as int, end as int)
                        =~= out@.map_values(|c: char| c as int) + spec_range_cps(
                        v + 1,
                        end as int,
                    ));
                }
            },
            None => {},
        }
        v = v + 1;
    }
    let ghost pre = out@.map_values(|c: char| c as int);
    match char_from_u32(end) {
        Some(c) => {
            out.push(c);
            proof {
                assert(out@.map_values(|c: char| c as int) =~= pre.push(c as int));
            }
        },
        None => {},
    }
    proof {
        assert(spec_range_cps(end as int + 1, end as int) =~= Seq::<int>::empty());
        assert(base + spec_range_cps(start as int, end as int) =~= out@.map_values(
            |c: char| c as int,
        ));
    }
}

/// The code points of the alphabet a charset and user ranges build:
/// each selected class's ranges in a fixed order, then the user ranges,
/// with a two-glyph fallback when everything is empty; an empty request
/// falls back to the plain or extended default.
pub open spec fn spec_build_cps(bits: u32, user: Seq<CharRange>, default_to_ascii: bool) -> Seq<
    int,
> {
    let eff: u32 = if bits == 0 && user.len() == 0 {
        if default_to_ascii {
            CS_DEFAULT
        } else {
            CS_EXTENDED_DEFAULT
        }
    } else {
        bits
    };
    let all = spec_binary_cps(eff) + spec_hexdigits_cps(eff) + spec_letters_cps(eff)
        + spec_digits_cps(eff) + spec_punctuation_cps(eff) + spec_katakana_cps(eff)
        + spec_greek_cps(eff) + spec_cyrillic_cps(eff) + spec_arabic_cps(eff) + spec_hebrew_cps(
        eff,
    ) + spec_devanagari_cps(eff) + spec_braille_cps(eff) + spec_runic_cps(eff)
        + spec_user_cps_upto(user, user.len() as int);
    if all.len() == 0 {
        seq![0x30, 0x31]
    } else {
        all
    }
}

/// The code points the binary class contributes when selected.
pub open spec fn spec_binary_cps(bits: u32) -> Seq<int> {
    if bits & CS_BINARY != 0 {
        spec_range_cps(0x30, 0x31)
    } else {
        Seq::empty()
    }
}

/// The code points the hexdigits class contributes when selected.
pub open spec fn spec_hexdigits_cps(bits: u32) -> Seq<int> {
    if bits & CS_HEX != 0 {
        spec_range_cps(0x30, 0x39) + spec_range_cps(0x41, 0x46)
    } else {
        Seq::empty()
    }
}

/// The code points the letters class contributes when selected.
pub open spec fn spec_letters_cps(bits: u32) -> Seq<int> {
    if bits & CS_ENGLISH_LETTERS != 0 {
        spec_range_cps(0x41, 0x5A) + spec_range_cps(0x61, 0x7A)
    } else {
        Seq::empty()
    }
}

/// The code points the digits class contributes when selected.
pub open spec fn spec_digits_cps(bits: u32) -> Seq<int> {
    if bits & CS_ENGLISH_DIGITS != 0 {
        spec_range_cps(0x30, 0x39)
    } else {
        Seq::empty()
    }
}

/// The code points the punctuation class contributes when selected.
pub open spec fn spec_punctuation_cps(bits: u32) -> Seq<int> {
    if bits & CS_ENGLISH_PUNCTUATION != 0 {
        spec_range_cps(0x21, 0x2F) + spec_range_cps(0x3A, 0x40) + spec_range_cps(0x5B, 0x60) + spec_range_cps(0x7B, 0x7E)
    } else {
        Seq::empty()
    }
}

/// The code points the katakana class contributes when selected.
pub open spec fn spec_katakana_cps(bits: u32) -> Seq<int> {
    if bits & CS_KATAKANA != 0 {
        spec_range_cps(0xFF64, 0xFF9F)
    } else {
        Seq::empty()
    }
}

/// The code points the greek class contributes when selected.
pub open spec fn spec_greek_cps(bits: u32) -> Seq<int> {
    if bits & CS_GREEK != 0 {
        spec_range_cps(0x0370, 0x03FF)
    } else {
        Seq::empty()
    }
}

/// The code points the cyrillic class contributes when selected.
pub open spec fn spec_cyrillic_cps(bits: u32) -> Seq<int> {
    if bits & CS_CYRILLIC != 0 {
        spec_range_cps(0x0410, 0x044F)
    } else {
        Seq::empty()
    }
}

/// The code points the arabic class contributes when selected.
pub open spec fn spec_arabic_cps(bits: u32) -> Seq<int> {
    if bits & CS_ARABIC != 0 {
        spec_range_cps(0x0627, 0x0649)
    } else {
        Seq::empty()
    }
}

/// The code points the hebrew class contributes when selected.
pub open spec fn spec_hebrew_cps(bits: u32) -> Seq<int> {
    if bits & CS_HEBREW != 0 {
        spec_range_cps(0x0590, 0x05FF) + spec_range_cps(0xFB1D, 0xFB4F)
    } else {
        Seq::empty()
    }
}

/// The code points the devanagari class contributes when selected.
pub open spec fn spec_devanagari_cps(bits: u32) -> Seq<int> {
    if bits & CS_DEVANAGARI != 0 {
        spec_range_cps(0x0900, 0x097F)
    } else {
        Seq::empty()
    }
}

/// The code points the braille class contributes when selected.
pub open spec fn spec_braille_cps(bits: u32) -> Seq<int> {
    if bits & CS_BRAILLE != 0 {
        spec_range_cps(0x2800, 0x28FF)
    } else {
        Seq::empty()
    }
}

/// The code points the runic class contributes when selected.
pub open spec fn spec_runic_cps(bits: u32) -> Seq<int> {
    if bits & CS_RUNIC != 0 {
        spec_range_cps(0x16A0, 0x16FF)
    } else {
        Seq::empty()
    }
}

/// Append the binary class when selected.
fn push_binary(out: &mut Vec<char>, bits: u32)
    ensures
        final(out)@.map_values(|c: char| c as int) == old(out)@.map_values(|c: char| c as int)
            + spec_binary_cps(bits),
{
    if Charset(bits).contains(Charset(CS_BINARY)) {
        push_range(out, 0x30, 0x31);
    }
    proof {
        assert(final(out)@.map_values(|c: char| c as int) =~= old(out)@.map_values(
            |c: char| c as int,
        ) + spec_binary_cps(bits));
    }
}

/// Append the hexdigits class when selected.
fn push_hexdigits(out: &mut Vec<char>, bits: u32)
    ensures
        final(out)@.map_values(|c: char| c as int) == old(out)@.map_values(|c: char| c as int)
            + spec_hexdigits_cps(bits),
{
    if Charset(bits).contains(Charset(CS_HEX)) {
        push_range(out, 0x30, 0x39);
        push_range(out, 0x41, 0x46);
    }
    proof {
        assert(final(out)@.map_values(|c: char| c as int) =~= old(out)@.map_values(
            |c: char| c as int,
        ) + spec_hexdigits_cps(bits));
    }
}

/// Append the letters class when selected.
fn push_letters(out: &mut Vec<char>, bits: u32)
    ensures
        final(out)@.map_values(|c: char| c as int) == old(out)@.map_values(|c: char| c as int)
            + spec_letters_cps(bits),
{
    if Charset(bits).contains(Charset(CS_ENGLISH_LETTERS)) {
        push_range(out, 0x41, 0x5A);
        push_range(out, 0x61, 0x7A);
    }
    proof {
        assert(final(out)@.map_values(|c: char| c as int) =~= old(out)@.map_values(
            |c: char| c as int,
        ) + spec_letters_cps(bits));
    }
}

/// Append the digits class when selected.
fn push_digits(out: &mut Vec<char>, bits: u32)
    ensures
        final(out)@.map_values(|c: char| c as int) == old(out)@.map_values(|c: char| c as int)
            + spec_digits_cps(bits),
{
    if Charset(bits).contains(Charset(CS_ENGLISH_DIGITS)) {
        push_range(out, 0x30, 0x39);
    }
    proof {
        assert(final(out)@.map_values(|c: char| c as int) =~= old(out)@.map_values(
            |c: char| c as int,
        ) + spec_digits_cps(bits));
    }
}

/// Append the punctuation class when selected.
fn push_punctuation(out: &mut Vec<char>, bits: u32)
    ensures
        final(out)@.map_values(|c: char| c as int) == old(out)@.map_values(|c: char| c as int)
            + spec_punctuation_cps(bits),
{
    if Charset(bits).contains(Charset(CS_ENGLISH_PUNCTUATION)) {
        push_range(out, 0x21, 0x2F);
        push_range(out, 0x3A, 0x40);
        push_range(out, 0x5B, 0x60);
        push_range(out, 0x7B, 0x7E);
    }
    proof {
        assert(final(out)@.map_values(|c: char| c as int) =~= old(out)@.map_values(
            |c: char| c as int,
        ) + spec_punctuation_cps(bits));
    }
}

/// Append the katakana class when selected.
fn push_katakana(out: &mut Vec<char>, bits: u32)
    ensures
        final(out)@.map_values(|c: char| c as int) == old(out)@.map_values(|c: char| c as int)
            + spec_katakana_cps(bits),
{
    if Charset(bits).contains(Charset(CS_KATAKANA)) {
        push_range(out, 0xFF64, 0xFF9F);
    }
    proof {
        assert(final(out)@.map_values(|c: char| c as int) =~= old(out)@.map_values(
            |c: char| c as int,
        ) + spec_katakana_cps(bits));
    }
}

/// Append the greek class when selected.
fn push_greek(out: &mut Vec<char>, bits: u32)
    ensures
        final(out)@.map_values(|c: char| c as int) == old(out)@.map_values(|c: char| c as int)
            + spec_greek_cps(bits),
{
    if Charset(bits).contains(Charset(CS_GREEK)) {
        push_range(out, 0x0370, 0x03FF);
    }
    proof {
        assert(final(out)@.map_values(|c: char| c as int) =~= old(out)@.map_values(
            |c: char| c as int,
        ) + spec_greek_cps(bits));
    }
}

/// Append the cyrillic class when selected.
fn push_cyrillic(out: &mut Vec<char>, bits: u32)
    ensures
        final(out)@.map_values(|c: char| c as int) == old(out)@.map_values(|c: char| c as int)
            + spec_cyrillic_cps(bits),
{
    if Charset(bits).contains(Charset(CS_CYRILLIC)) {
        push_range(out, 0x0410, 0x044F);
    }
    proof {
        assert(final(out)@.map_values(|c: char| c as int) =~= old(out)@.map_values(
            |c: char| c as int,
        ) + spec_cyrillic_cps(bits));
    }
}

/// Append the arabic class when selected.
fn push_arabic(out: &mut Vec<char>, bits: u32)
    ensures
        final(out)@.map_values(|c: char| c as int) == old(out)@.map_values(|c: char| c as int)
            + spec_arabic_cps(bits),
{
    if Charset(bits).contains(Charset(CS_ARABIC)) {
        push_range(out, 0x0627, 0x0649);
    }
    proof {
        assert(final(out)@.map_values(|c: char| c as int) =~= old(out)@.map_values(
            |c: char| c as int,
        ) + spec_arabic_cps(bits));
    }
}

/// Append the hebrew class when selected.
fn push_hebrew(out: &mut Vec<char>, bits: u32)
    ensures
        final(out)@.map_values(|c: char| c as int) == old(out)@.map_values(|c: char| c as int)
            + spec_hebrew_cps(bits),
{
    if Charset(bits).contains(Charset(CS_HEBREW)) {
        push_range(out, 0x0590, 0x05FF);
        push_range(out, 0xFB1D, 0xFB4F);
    }
    proof {
        assert(final(out)@.map_values(|c: char| c as int) =~= old(out)@.map_values(
            |c: char| c as int,
        ) + spec_hebrew_cps(bits));
    }
}

/// Append the devanagari class when selected.
fn push_devanagari(out: &mut Vec<char>, bits: u32)
    ensures
        final(out)@.map_values(|c: char| c as int) == old(out)@.map_values(|c: char| c as int)
            + spec_devanagari_cps(bits),
{
    if Charset(bits).contains(Charset(CS_DEVANAGARI)) {
        push_range(out, 0x0900, 0x097F);
    }
    proof {
        assert(final(out)@.map_values(|c: char| c as int) =~= old(out)@.map_values(
            |c: char| c as int,
        ) + spec_devanagari_cps(bits));
    }
}

/// Append the braille class when selected.
fn push_braille(out: &mut Vec<char>, bits: u32)
    ensures
        final(out)@.map_values(|c: char| c as int) == old(out)@.map_values(|c: char| c as int)
            + spec_braille_cps(bits),
{
    if Charset(bits).contains(Charset(CS_BRAILLE)) {
        push_range(out, 0x2800, 0x28FF);
    }
    proof {
        assert(final(out)@.map_values(|c: char| c as int) =~= old(out)@.map_values(
            |c: char| c as int,
        ) + spec_braille_cps(bits));
    }
}

/// Append the runic class when selected.
fn push_runic(out: &mut Vec<char>, bits: u32)
    ensures
        final(out)@.map_values(|c: char| c as int) == old(out)@.map_values(|c: char| c as int)
            + spec_runic_cps(bits),
{
    if Charset(bits).contains(Charset(CS_RUNIC)) {
        push_range(out, 0x16A0, 0x16FF);
    }
    proof {
        assert(final(out)@.map_values(|c: char| c as int) =~= old(out)@.map_values(
            |c: char| c as int,
        ) + spec_runic_cps(bits));
    }
}

/// The code points of the first `k` user ranges, in order.
pub open spec fn spec_user_cps_upto(user: Seq<CharRange>, k: int) -> Seq<int>
    decreases k,
{
    if k <= 0 {
        Seq::empty()
    } else {
        spec_user_cps_upto(user, k - 1) + spec_range_cps(
            user[k - 1].lo as int,
            user[k - 1].hi as int,
        )
    }
}

/// Build the active alphabet from a charset and user-supplied ranges.
pub fn build_chars(charset: Charset, user_ranges: &Vec<CharRange>, default_to_ascii: bool) -> (r:
    Vec<char>)
    ensures
        r@.map_values(|c: char| c as int) == spec_build_cps(
            charset.0,
            user_ranges@,
            default_to_ascii,
        ),
{
    let mut bits: u32 = charset.0;
    if bits == 0 && user_ranges.len() == 0 {
        bits = if default_to_ascii {
            CS_DEFAULT
        } else {
            CS_EXTENDED_DEFAULT
        };
    }
    let mut out: Vec<char> = Vec::new();
    push_binary(&mut out, bits);
    push_hexdigits(&mut out, bits);
    push_letters(&mut out, bits);
    push_digits(&mut out, bits);
    push_punctuation(&mut out, bits);
    push_katakana(&mut out, bits);
    push_greek(&mut out, bits);
    push_cyrillic(&mut out, bits);
    push_arabic(&mut out, bits);
    push_hebrew(&mut out, bits);
    push_devanagari(&mut out, bits);
    push_braille(&mut out, bits);
    push_runic(&mut out, bits);
    proof {
        assert(out@.map_values(|c: char| c as int) =~= spec_binary_cps(bits) + spec_hexdigits_cps(
            bits,
        ) + spec_letters_cps(bits) + spec_digits_cps(bits) + spec_punctuation_cps(bits)
            + spec_katakana_cps(bits) + spec_greek_cps(bits) + spec_cyrillic_cps(bits)
            + spec_arabic_cps(bits) + spec_hebrew_cps(bits) + spec_devanagari_cps(bits)
            + spec_braille_cps(bits) + spec_runic_cps(bits));
    }
    let ghost a13 = out@.map_values(|c: char| c as int);
    let n: usize = user_ranges.len();
    let mut i: usize = 0;
    while i < n
        invariant
            i <= n,
            n == user_ranges@.len(),
            out@.map_values(|c: char| c as int) == a13 + spec_user_cps_upto(
                user_ranges@,
                i as int,
            ),
        decreases n - i,
    {
        let rg = user_ranges[i];
        push_range(&mut out, rg.lo as u32, rg.hi as u32);
        i = i + 1;
    }
    if out.len() == 0 {
        proof {
            assert(out@.map_values(|c: char| c as int) =~= Seq::<int>::empty());
        }
        match char_from_u32(0x30) {
            Some(c) => out.push(c),
            None => (),
        }
        match char_from_u32(0x31) {
            Some(c) => out.push(c),
            None => (),
        }
        proof {
            assert(out@.map_values(|c: char| c as int) =~= seq![0x30, 0x31]);
        }
    }
    out
}

} // verus!
