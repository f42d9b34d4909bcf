use vstd::prelude::*;
use vstd::pervasive::VecAdditionalExecFns;

use crate::arith::{lemma_mixed_mul_bound, lemma_u16_mul_bound, round_div, round_div_i64};
use crate::cell::{Cell, TermColor};
use crate::droplet::Droplet;
use crate::frame::{spec_blank_cell, Frame};
use crate::palette::{build_palette, spec_palette_bg, spec_palette_colors, Palette};
use crate::rng::{rng_from_seed, sample_inclusive};
use crate::runtime::{BoldMode, ColorMode, ColorScheme, ShadingMode, UserColors};

verus! {

/// Denominator of all sampled probabilities: a chance is a count of
/// parts per million.
pub const CHANCE_SCALE: u32 = 1000000;

/// Speeds are carried in milli-glyphs per second, capped at a million
/// glyphs per second.
pub const MAX_CPS_MILLI: u64 = 1000000000;

/// Cap on the droplet density, in per-mille of one droplet per column
/// per droplet-lifetime.
pub const MAX_DENSITY_PM: u32 = 100000;

/// Size of the primary rotating glyph pool, independent of the viewport.
pub const CHAR_POOL_SIZE: usize = 2048;

/// Size of the secondary pool that feeds glitch substitutions.
pub const GLITCH_POOL_SIZE: usize = 1024;

/// How a drawn row relates to its droplet: the clearing edge just past
/// the tail, the leading bright head, or anything between.
#[derive(Clone, Copy, Debug, PartialEq, Eq, Structural)]
pub enum CharLoc {
    Middle,
    Tail,
    Head,
}

/// The mathematical snapshot of everything the per-cell attribute
/// computation reads: scalar settings, the shared glitch window, and the
/// views of the palette, the per-cell maps and the glyph pool. Both the
/// orchestrator and its per-tick draw snapshot reduce to one of these, so
/// their attribute contracts coincide.
pub struct AttrEnv {
    pub lines: u16,
    pub full_width: bool,
    pub shading_distance: bool,
    pub bg: Option<TermColor>,
    pub color_mode: ColorMode,
    pub bold_mode: BoldMode,
    pub glitchy: bool,
    pub last_glitch_time: u64,
    pub next_glitch_time: u64,
    pub palette_colors: Seq<TermColor>,
    pub color_map: Seq<u8>,
    pub glitch_map: Seq<bool>,
    pub char_pool: Seq<char>,
}

impl AttrEnv {
    /// The palette is neither empty nor beyond any sane size.
    pub open spec fn wf(self) -> bool {
        1 <= self.palette_colors.len() <= 0xffff
    }

    /// Index of `(line, col)` in the column-major per-cell maps.
    pub open spec fn spec_map_index(self, line: u16, col: u16) -> int {
        col as int * self.lines as int + line as int
    }

    /// Whether the shared glitch window is in its bright phase at `now`:
    /// at most a quarter of the window has elapsed.
    pub open spec fn spec_is_bright(self, now: u64) -> bool {
        &&& now >= self.last_glitch_time
        &&& self.next_glitch_time > self.last_glitch_time
        &&& 4 * (now - self.last_glitch_time) <= self.next_glitch_time - self.last_glitch_time
    }

    /// Whether the shared glitch window is in its dim phase at `now`: the
    /// window is over or degenerate, or at least three quarters of it
    /// have elapsed.
    pub open spec fn spec_is_dim(self, now: u64) -> bool {
        ||| now > self.next_glitch_time
        ||| self.next_glitch_time <= self.last_glitch_time
        ||| 4 * (if now >= self.last_glitch_time {
            now - self.last_glitch_time
        } else {
            0
        }) >= 3 * (self.next_glitch_time - self.last_glitch_time)
    }

    /// Whether the cell at `(line, col)` is glitch-eligible.
    pub open spec fn spec_is_glitched(self, line: u16, col: u16) -> bool {
        &&& self.glitchy
        &&& 0 <= self.spec_map_index(line, col) < self.glitch_map.len()
        &&& self.glitch_map[self.spec_map_index(line, col)]
    }

    /// The glyph a droplet with pool offset `char_pool_idx` shows on
    /// `line`: the rotating pool read at the offset plus the line, modulo
    /// the pool size; `'0'` when the pool is empty.
    pub open spec fn spec_get_char(self, line: u16, char_pool_idx: u16) -> char {
        if self.char_pool.len() == 0 {
            '0'
        } else {
            self.char_pool[(char_pool_idx + line) % (self.char_pool.len() as int)]
        }
    }

    /// Baseline bold before overrides: random mode takes the parity of
    /// the line XOR the glyph's code point; the other modes start from
    /// plain.
    pub open spec fn spec_base_bold(self, line: u16, val: char) -> bool {
        self.bold_mode == BoldMode::Random && ((line as u32) ^ (val as u32)) % 2 == 1
    }

    /// Baseline color index before overrides: the per-cell map entry, or,
    /// under distance shading, a linear interpolation over the palette
    /// falling with the distance from the droplet's head, rounded to
    /// nearest.
    pub open spec fn spec_base_idx(self, line: u16, col: u16, head_put_line: u16, length: u16) -> int {
        if self.shading_distance {
            let n1 = if self.palette_colors.len() >= 1 {
                self.palette_colors.len() - 1
            } else {
                0
            };
            let dist = if head_put_line >= line {
                head_put_line - line
            } else {
                0
            };
            let len = if length >= 1 {
                length as int
            } else {
                1
            };
            round_div(n1 * (len - dist), len)
        } else {
            let idx = self.spec_map_index(line, col);
            if 0 <= idx < self.color_map.len() {
                self.color_map[idx] as int
            } else {
                0
            }
        }
    }

    /// Color index and bold after the glitch phase and before the
    /// location override: a glitch-eligible cell is brightened one index
    /// and forced bold in the bright phase, dimmed one index and forced
    /// plain in the dim phase.
    pub open spec fn spec_glitched_attr(
        self,
        line: u16,
        col: u16,
        val: char,
        now: u64,
        head_put_line: u16,
        length: u16,
    ) -> (int, bool) {
        let base = self.spec_base_idx(line, col, head_put_line, length);
        let bold = self.spec_base_bold(line, val);
        if self.spec_is_glitched(line, col) {
            if self.spec_is_bright(now) {
                (base + 1, true)
            } else if self.spec_is_dim(now) {
                (base - 1, false)
            } else {
                (base, bold)
            }
        } else {
            (base, bold)
        }
    }

    /// The final color index: the tail is darkest, the head brightest,
    /// anything between is clamped into the palette.
    pub open spec fn spec_final_idx(
        self,
        line: u16,
        col: u16,
        val: char,
        loc: CharLoc,
        now: u64,
        head_put_line: u16,
        length: u16,
    ) -> int {
        let last = if self.palette_colors.len() >= 1 {
            self.palette_colors.len() - 1
        } else {
            0
        };
        match loc {
            CharLoc::Tail => 0,
            CharLoc::Head => last,
            CharLoc::Middle => {
                let pre = self.spec_glitched_attr(line, col, val, now, head_put_line, length).0;
                if pre < 0 {
                    0
                } else if pre > last {
                    last
                } else {
                    pre
                }
            },
        }
    }

    /// The final bold flag: the tail is plain and the head bold, then the
    /// bold mode forces plain or bold everywhere unless it is random.
    pub open spec fn spec_final_bold(
        self,
        line: u16,
        col: u16,
        val: char,
        loc: CharLoc,
        now: u64,
        head_put_line: u16,
        length: u16,
    ) -> bool {
        let by_loc = match loc {
            CharLoc::Tail => false,
            CharLoc::Head => true,
            CharLoc::Middle => self.spec_glitched_attr(
                line,
                col,
                val,
                now,
                head_put_line,
                length,
            ).1,
        };
        match self.bold_mode {
            BoldMode::Off => false,
            BoldMode::All => true,
            BoldMode::Random => by_loc,
        }
    }

    /// The final foreground color: none in monochrome mode, else the
    /// palette entry at the final index.
    pub open spec fn spec_final_fg(
        self,
        line: u16,
        col: u16,
        val: char,
        loc: CharLoc,
        now: u64,
        head_put_line: u16,
        length: u16,
    ) -> Option<TermColor> {
        if self.color_mode == ColorMode::Mono || self.palette_colors.len() == 0 {
            None
        } else {
            Some(
                self.palette_colors[self.spec_final_idx(
                    line,
                    col,
                    val,
                    loc,
                    now,
                    head_put_line,
                    length,
                )],
            )
        }
    }
}

/// A read-only snapshot of the orchestrator's visual state, built fresh
/// each tick and handed to every droplet's draw step, so that drawing
/// never needs mutable access to the orchestrator.
pub struct DrawCtx {
    pub lines: u16,
    pub full_width: bool,
    pub shading_distance: bool,
    pub bg: Option<TermColor>,

    pub color_mode: ColorMode,
    pub bold_mode: BoldMode,
    pub glitchy: bool,

    /// The shared glitch window, in milliseconds on the caller's clock.
    pub last_glitch_time: u64,
    pub next_glitch_time: u64,

    pub palette_colors: Vec<TermColor>,
    pub color_map: Vec<u8>,
    pub glitch_map: Vec<bool>,
    pub char_pool: Vec<char>,
}

impl DrawCtx {
    /// The attribute environment this snapshot denotes.
    pub open spec fn env(self) -> AttrEnv {
        AttrEnv {
            lines: self.lines,
            full_width: self.full_width,
            shading_distance: self.shading_distance,
            bg: self.bg,
            color_mode: self.color_mode,
            bold_mode: self.bold_mode,
            glitchy: self.glitchy,
            last_glitch_time: self.last_glitch_time,
            next_glitch_time: self.next_glitch_time,
            palette_colors: self.palette_colors@,
            color_map: self.color_map@,
            glitch_map: self.glitch_map@,
            char_pool: self.char_pool@,
        }
    }

    /// The palette is neither empty nor beyond any sane size.
    pub open spec fn wf(self) -> bool {
        self.env().wf()
    }

    /// Whether the shared glitch window is in its bright phase at `now`.
    pub fn is_bright(&self, now: u64) -> (r: bool)
        ensures
            r == self.env().spec_is_bright(now),
    {
        if now < self.last_glitch_time {
            return false;
        }
        if self.next_glitch_time <= self.last_glitch_time {
            return false;
        }
        let since: u64 = now - self.last_glitch_time;
        let between: u64 = self.next_glitch_time - self.last_glitch_time;
        4 * (since as u128) <= between as u128
    }

    /// Whether the shared glitch window is in its dim phase at `now`.
    pub fn is_dim(&self, now: u64) -> (r: bool)
        ensures
            r == self.env().spec_is_dim(now),
    {
        if now > self.next_glitch_time {
            return true;
        }
        if self.next_glitch_time <= self.last_glitch_time {
            return true;
        }
        let since: u64 = if now >= self.last_glitch_time {
            now - self.last_glitch_time
        } else {
            0
        };
        let between: u64 = self.next_glitch_time - self.last_glitch_time;
        4 * (since as u128) >= 3 * (between as u128)
    }

    /// Whether the cell at `(line, col)` is glitch-eligible.
    pub fn is_glitched(&self, line: u16, col: u16) -> (r: bool)
        ensures
            r == self.env().spec_is_glitched(line, col),
    {
        if !self.glitchy {
            return false;
        }
        proof {
            lemma_u16_mul_bound(col as int, self.lines as int);
        }
        let idx: usize = col as usize * self.lines as usize + line as usize;
        if idx < self.glitch_map.len() {
            self.glitch_map[idx]
        } else {
            false
        }
    }

    /// The glyph a droplet with pool offset `char_pool_idx` shows on
    /// `line`.
    pub fn get_char(&self, line: u16, char_pool_idx: u16) -> (r: char)
        ensures
            r == self.env().spec_get_char(line, char_pool_idx),
    {
        let len: usize = self.char_pool.len();
        if len == 0 {
            return '0';
        }
        let idx: usize = (char_pool_idx as usize + line as usize) % len;
        self.char_pool[idx]
    }

    /// Compute the foreground color and bold flag for one cell, from its
    /// coordinates, glyph, location class, the time, and its droplet's
    /// head position and target length. A degenerate empty palette
    /// collapses to monochrome rendering: no foreground at all.
    pub fn get_attr(
        &self,
        line: u16,
        col: u16,
        val: char,
        loc: CharLoc,
        now: u64,
        head_put_line: u16,
        length: u16,
    ) -> (r: (Option<TermColor>, bool))
        requires
            self.palette_colors@.len() <= 0xffff,
        ensures
            r.0 == self.env().spec_final_fg(line, col, val, loc, now, head_put_line, length),
            r.1 == self.env().spec_final_bold(line, col, val, loc, now, head_put_line, length),
            self.palette_colors@.len() == 0 ==> r.0 is None,
            // A head cell always takes the brightest palette entry and,
            // unless bold is forced off, is bold.
            loc is Head && self.color_mode != ColorMode::Mono && self.palette_colors@.len() >= 1
                ==> r.0 == Some(self.palette_colors@[self.palette_colors@.len() - 1]),
            loc is Head && self.bold_mode != BoldMode::Off ==> r.1,
    {
        let n: usize = self.palette_colors.len();
        let mut bold: bool = false;
        if self.bold_mode == BoldMode::Random {
            bold = ((line as u32) ^ (val as u32)) % 2 == 1;
        }
        let mut color_idx: i64 = 0;
        if self.shading_distance {
            let n1: i64 = if n >= 1 {
                (n - 1) as i64
            } else {
                0
            };
            let dist: i64 = if head_put_line >= line {
                (head_put_line - line) as i64
            } else {
                0
            };
            let len: i64 = if length >= 1 {
                length as i64
            } else {
                1
            };
            proof {
                lemma_mixed_mul_bound(n1 as int, len - dist);
            }
            color_idx = round_div_i64(n1 * (len - dist), len);
        } else {
            proof {
                lemma_u16_mul_bound(col as int, self.lines as int);
            }
            let idx: usize = col as usize * self.lines as usize + line as usize;
            if idx < self.color_map.len() {
                color_idx = self.color_map[idx] as i64;
            }
        }
        if self.is_glitched(line, col) {
            if self.is_bright(now) {
                color_idx = color_idx + 1;
                bold = true;
            } else if self.is_dim(now) {
                color_idx = color_idx - 1;
                bold = false;
            }
        }
        let last: i64 = if n >= 1 {
            (n - 1) as i64
        } else {
            0
        };
        match loc {
            CharLoc::Tail => {
                color_idx = 0;
                bold = false;
            },
            CharLoc::Head => {
                color_idx = last;
                bold = true;
            },
            CharLoc::Middle => {
                if color_idx < 0 {
                    color_idx = 0;
                } else if color_idx > last {
                    color_idx = last;
                }
            },
        }
        match self.bold_mode {
            BoldMode::Off => {
                bold = false;
            },
            BoldMode::All => {
                bold = true;
            },
            BoldMode::Random => {},
        }
        let fg: Option<TermColor> = if self.color_mode == ColorMode::Mono || n == 0 {
            None
        } else {
            Some(self.palette_colors[color_idx as usize])
        };
        (fg, bold)
    }
}

/// Per-column bookkeeping: whether a new droplet may spawn there, how
/// many live droplets it hosts, and its speed scale in per-mille.
#[derive(Clone, Copy, Debug)]
pub struct ColumnStatus {
    pub max_speed_permille: u32,
    pub num_droplets: u8,
    pub can_spawn: bool,
}

/// One character of the centered overlay message: its target cell, its
/// glyph, and whether the rain has revealed it yet.
#[derive(Clone, Copy, Debug)]
pub struct MsgChr {
    pub line: u16,
    pub col: u16,
    pub val: char,
    pub draw: bool,
}

impl MsgChr {
    /// A hidden message character at the top left, awaiting layout.
    pub fn new(val: char) -> (m: MsgChr)
        ensures
            m == (MsgChr { line: 0, col: 0, val, draw: false }),
    {
        MsgChr { line: 0, col: 0, val, draw: false }
    }
}

/// The orchestrator: owns the droplet pool, per-column state, the shared
/// random fields, spawn scheduling, the palette and the optional message
/// overlay, and drives the per-tick update and draw pass.
pub struct Cloud {
    pub lines: u16,
    pub cols: u16,

    pub palette: Palette,
    pub color_mode: ColorMode,

    pub full_width: bool,
    pub shading_distance: bool,
    pub bold_mode: BoldMode,

    pub async_mode: bool,
    pub raining: bool,
    pub pause: bool,

    /// Droplet density in per-mille.
    pub droplet_density_pm: u32,
    /// Spawn rate in milli-droplets per second.
    pub droplets_per_sec_milli: u64,
    /// Global speed in milli-glyphs per second.
    pub chars_per_sec_milli: u64,

    pub glitchy: bool,
    /// Chance of a cell being glitch-eligible, over `CHANCE_SCALE`.
    pub glitch_ppm: u32,
    pub glitch_low_ms: u16,
    pub glitch_high_ms: u16,

    /// Chance of a short streak, over `CHANCE_SCALE`.
    pub short_ppm: u32,
    /// Chance of a streak that stops above the bottom, over
    /// `CHANCE_SCALE`.
    pub die_early_ppm: u32,
    pub linger_low_ms: u16,
    pub linger_high_ms: u16,

    pub max_droplets_per_column: u8,

    pub droplets: Vec<Droplet>,
    pub num_droplets: usize,

    pub chars: Vec<char>,
    pub char_pool: Vec<char>,
    pub glitch_pool: Vec<char>,
    pub glitch_pool_idx: usize,

    pub glitch_map: Vec<bool>,
    pub color_map: Vec<u8>,

    pub col_stat: Vec<ColumnStatus>,

    pub rng: rand::rngs::StdRng,

    /// Timestamps in milliseconds on the caller's clock.
    pub last_glitch_time: u64,
    pub next_glitch_time: u64,
    pub last_spawn_time: u64,
    pub pause_time: Option<u64>,

    pub force_draw_all: bool,

    pub shading_mode: ShadingMode,

    pub message: Vec<MsgChr>,

    pub user_colors: Option<UserColors>,
    pub color_scheme: ColorScheme,
    pub default_background: bool,
}

/// The droplet pool holds about one and a half slots per column.
pub open spec fn spec_pool_size(cols: u16) -> int {
    (3 * cols + 1) / 2
}

/// The spawn rate, in milli-droplets per second, for a viewport and
/// settings: columns times density over the seconds one droplet takes to
/// cross the viewport.
pub open spec fn spec_dps_milli(cols: u16, density_pm: u32, cps_milli: u64, lines: u16) -> int {
    (cols as int * density_pm as int * cps_milli as int) / (1000 * (if lines == 0 {
        1int
    } else {
        lines as int
    }))
}

impl Cloud {
    /// The attribute environment of this orchestrator's current state.
    pub open spec fn env(self) -> AttrEnv {
        AttrEnv {
            lines: self.lines,
            full_width: self.full_width,
            shading_distance: self.shading_distance,
            bg: self.palette.bg,
            color_mode: self.color_mode,
            bold_mode: self.bold_mode,
            glitchy: self.glitchy,
            last_glitch_time: self.last_glitch_time,
            next_glitch_time: self.next_glitch_time,
            palette_colors: self.palette.colors@,
            color_map: self.color_map@,
            glitch_map: self.glitch_map@,
            char_pool: self.char_pool@,
        }
    }

    /// Structural invariant: the palette is non-empty and bounded, the
    /// fixed-point settings sit in their ranges, the sampling ranges are
    /// non-empty, the pool size bookkeeping agrees, every pooled droplet
    /// is well formed, and column speed scales are valid per-milles.
    pub open spec fn wf(self) -> bool {
        &&& 1 <= self.palette.colors@.len() <= 0xffff
        &&& 1 <= self.chars_per_sec_milli <= MAX_CPS_MILLI
        &&& 1 <= self.droplet_density_pm <= MAX_DENSITY_PM
        &&& self.glitch_ppm <= CHANCE_SCALE
        &&& self.short_ppm <= CHANCE_SCALE
        &&& self.die_early_ppm <= CHANCE_SCALE
        &&& self.glitch_low_ms <= self.glitch_high_ms
        &&& self.linger_low_ms <= self.linger_high_ms
        &&& self.num_droplets == self.droplets@.len()
        &&& forall|i: int| 0 <= i < self.droplets@.len() ==> (#[trigger] self.droplets@[i]).wf()
        &&& forall|i: int|
            0 <= i < self.col_stat@.len() ==> 1 <= (#[trigger] self.col_stat@[i]).max_speed_permille
                <= 1000
        &&& (self.user_colors is Some ==> self.user_colors->0.colors@.len() <= 0xffff)
    }

    /// A fresh orchestrator over a default 80x25 viewport, with the
    /// palette built from the given scheme; `reset` and `init_chars` size
    /// the pools and maps.
    pub fn new(
        now: u64,
        color_mode: ColorMode,
        full_width: bool,
        shading_mode: ShadingMode,
        bold_mode: BoldMode,
        async_mode: bool,
        default_background: bool,
        color_scheme: ColorScheme,
        user_colors: Option<UserColors>,
    ) -> (c: Cloud)
        requires
            user_colors is Some ==> user_colors->0.colors@.len() <= 0xffff,
        ensures
            c.wf(),
            c.lines == 25 && c.cols == 80,
            c.color_mode == color_mode,
            c.full_width == full_width,
            c.shading_mode == shading_mode,
            c.shading_distance == (shading_mode == ShadingMode::DistanceFromHead),
            c.bold_mode == bold_mode,
            c.async_mode == async_mode,
            c.raining && !c.pause,
            c.color_scheme == color_scheme,
            c.default_background == default_background,
            c.palette.colors@ == spec_palette_colors(
                color_scheme,
                color_mode,
                match user_colors {
                    Some(u) => Some(u.colors@),
                    None => None,
                },
            ),
            c.palette.bg == spec_palette_bg(
                color_scheme,
                color_mode,
                default_background,
                match user_colors {
                    Some(u) => Some(u.colors@),
                    None => None,
                },
            ),
            c.droplets@.len() == 0 && c.col_stat@.len() == 0,
            c.chars_per_sec_milli == 8000,
            c.droplet_density_pm == 1000,
            c.glitchy && c.glitch_ppm == 100000,
            c.short_ppm == 500000 && c.die_early_ppm == 333333,
            c.max_droplets_per_column == 3,
            c.last_glitch_time == now && c.next_glitch_time == sat_time(now, 300),
            c.last_spawn_time == now && c.pause_time is None,
            !c.force_draw_all,
            c.message@.len() == 0,
    {
        let palette = build_palette(color_scheme, color_mode, default_background, user_colors.as_ref());
        Cloud {
            lines: 25,
            cols: 80,
            palette,
            color_mode,
            full_width,
            shading_distance: shading_mode == ShadingMode::DistanceFromHead,
            bold_mode,
            async_mode,
            raining: true,
            pause: false,
            droplet_density_pm: 1000,
            droplets_per_sec_milli: 5000,
            chars_per_sec_milli: 8000,
            glitchy: true,
            glitch_ppm: 100000,
            glitch_low_ms: 300,
            glitch_high_ms: 400,
            short_ppm: 500000,
            die_early_ppm: 333333,
            linger_low_ms: 1,
            linger_high_ms: 3000,
            max_droplets_per_column: 3,
            droplets: Vec::new(),
            num_droplets: 0,
            chars: Vec::new(),
            char_pool: Vec::new(),
            glitch_pool: Vec::new(),
            glitch_pool_idx: 0,
            glitch_map: Vec::new(),
            color_map: Vec::new(),
            col_stat: Vec::new(),
            rng: rng_from_seed(0x1234567),
            last_glitch_time: now,
            next_glitch_time: crate::arith::add_saturating(now, 300),
            last_spawn_time: now,
            pause_time: None,
            force_draw_all: false,
            shading_mode,
            message: Vec::new(),
            user_colors,
            color_scheme,
            default_background,
        }
    }
}

/// A timestamp a number of milliseconds later, saturating.
pub open spec fn sat_time(t: u64, delta: u64) -> u64 {
    crate::arith::sat_add_u64(t, delta)
}

/// The primary glyph pool and secondary cursor after substituting over
/// one droplet's span: for each glitch-eligible line of
/// `l..=min(hp, lines-1)` in order, the pool entry the droplet reads on
/// that line takes the next secondary-pool glyph and the cursor steps
/// round-robin. Glitches off or an empty pool leave everything alone.
pub open spec fn spec_glitch_span(
    cp: Seq<char>,
    gp: Seq<char>,
    gidx: int,
    glitchy: bool,
    glitch_map: Seq<bool>,
    lines: u16,
    l: int,
    hp: u16,
    col: u16,
    cp_idx: u16,
) -> (Seq<char>, int)
    decreases hp as int + 1 - l,
{
    if !glitchy || cp.len() == 0 || gp.len() == 0 {
        (cp, gidx)
    } else if l > hp as int || l >= lines as int || l < 0 {
        (cp, gidx)
    } else {
        let eligible = 0 <= col as int * lines as int + l < glitch_map.len()
            && glitch_map[col as int * lines as int + l];
        if eligible {
            let ci = (cp_idx as int + l) % cp.len() as int;
            let gc = gidx % gp.len() as int;
            spec_glitch_span(
                cp.update(ci, gp[gc]),
                gp,
                (gc + 1) % gp.len() as int,
                glitchy,
                glitch_map,
                lines,
                l + 1,
                hp,
                col,
                cp_idx,
            )
        } else {
            spec_glitch_span(cp, gp, gidx, glitchy, glitch_map, lines, l + 1, hp, col, cp_idx)
        }
    }
}

/// How many pool slots differ between two equally long pools.
pub open spec fn spec_count_changed(a: Seq<Droplet>, b: Seq<Droplet>) -> int
    decreases a.len(),
{
    if a.len() == 0 || b.len() == 0 {
        0
    } else {
        (if a.last() != b.last() {
            1int
        } else {
            0
        }) + spec_count_changed(a.drop_last(), b.drop_last())
    }
}

/// A changed-slot count is never negative.
pub proof fn lemma_count_changed_nonneg(a: Seq<Droplet>, b: Seq<Droplet>)
    ensures
        spec_count_changed(a, b) >= 0,
    decreases a.len(),
{
    if a.len() > 0 && b.len() > 0 {
        lemma_count_changed_nonneg(a.drop_last(), b.drop_last());
    }
}

/// Equal pools have no changed slots.
pub proof fn lemma_count_changed_refl(a: Seq<Droplet>)
    ensures
        spec_count_changed(a, a) == 0,
    decreases a.len(),
{
    if a.len() > 0 {
        lemma_count_changed_refl(a.drop_last());
    }
}

/// Replacing one slot moves the changed-slot count by the slots'
/// agreement with the reference pool.
pub proof fn lemma_count_changed_update(a: Seq<Droplet>, b: Seq<Droplet>, i: int, d: Droplet)
    requires
        a.len() == b.len(),
        0 <= i < a.len(),
    ensures
        spec_count_changed(a, b.update(i, d)) == spec_count_changed(a, b) - (if b[i] != a[i] {
            1int
        } else {
            0
        }) + (if d != a[i] {
            1int
        } else {
            0
        }),
    decreases a.len(),
{
    if i == a.len() - 1 {
        assert(b.update(i, d).drop_last() =~= b.drop_last());
        assert(b.update(i, d).last() == d);
    } else {
        assert(b.update(i, d).drop_last() =~= b.drop_last().update(i, d));
        assert(b.update(i, d).last() == b.last());
        lemma_count_changed_update(a.drop_last(), b.drop_last(), i, d);
        assert(a.drop_last()[i] == a[i]);
        assert(b.drop_last()[i] == b[i]);
    }
}

/// A pool with no changed slots is the reference pool, pointwise.
pub proof fn lemma_count_changed_zero(a: Seq<Droplet>, b: Seq<Droplet>)
    requires
        a.len() == b.len(),
        spec_count_changed(a, b) == 0,
    ensures
        forall|i: int| 0 <= i < a.len() ==> a[i] == b[i],
    decreases a.len(),
{
    if a.len() > 0 {
        lemma_count_changed_nonneg(a.drop_last(), b.drop_last());
        assert(a.last() == b.last());
        lemma_count_changed_zero(a.drop_last(), b.drop_last());
        assert forall|i: int| 0 <= i < a.len() implies a[i] == b[i] by {
            if i < a.len() - 1 {
                assert(a.drop_last()[i] == a[i]);
                assert(b.drop_last()[i] == b[i]);
            }
        }
    }
}

/// How many activations the elapsed time affords: the elapsed
/// milliseconds times the spawn rate, capped at the pool size.
pub open spec fn spec_spawn_budget(c: Cloud, now: u64) -> int {
    let raw = (crate::arith::sat_sub_u64(now, c.last_spawn_time) as int
        * c.droplets_per_sec_milli as int) / 1000000;
    if raw > c.droplets@.len() as int {
        c.droplets@.len() as int
    } else {
        raw
    }
}

/// The inputs on which a spawn pass owes an activation, whatever
/// columns the generator draws: the time budget affords one, a dormant
/// unheld slot is free, and every column of a real table is gated open
/// under the cap.
pub open spec fn spec_spawn_guaranteed(c: Cloud, now: u64) -> bool {
    &&& spec_spawn_budget(c, now) >= 1
    &&& c.cols >= 1
    &&& c.col_stat@.len() == c.cols as int
    &&& exists|i: int|
        0 <= i < c.droplets@.len() && !(#[trigger] c.droplets@[i]).is_alive
            && !c.droplets@[i].holds_column
    &&& forall|col: int|
        0 <= col < c.col_stat@.len() ==> (#[trigger] c.col_stat@[col]).can_spawn
            && c.col_stat@[col].num_droplets < c.max_droplets_per_column
}

/// The first line of a droplet's visible span: just past its tail.
pub open spec fn spec_span_start(d: Droplet) -> int {
    match d.tail_put_line {
        Some(v) => if v < 0xffff {
            v + 1
        } else {
            0xffff
        },
        None => 0,
    }
}

/// The glyph pools after the update pass has advanced the first `k`
/// droplets: when a glitch window is due, each live droplet's advanced
/// span is substituted in pool order.
pub open spec fn spec_update_pools(
    ds: Seq<Droplet>,
    k: int,
    now: u64,
    lines: u16,
    tfg: bool,
    glitchy: bool,
    glitch_map: Seq<bool>,
    gp: Seq<char>,
    cp: Seq<char>,
    gidx: int,
) -> (Seq<char>, int)
    decreases k,
{
    if k <= 0 {
        (cp, gidx)
    } else {
        let prev = spec_update_pools(ds, k - 1, now, lines, tfg, glitchy, glitch_map, gp, cp, gidx);
        let d0 = ds[k - 1];
        if d0.is_alive && tfg {
            let nd = d0.spec_advance(now, lines).0;
            spec_glitch_span(
                prev.0,
                gp,
                prev.1,
                glitchy,
                glitch_map,
                lines,
                spec_span_start(nd),
                nd.head_put_line,
                nd.bound_col,
                nd.char_pool_idx,
            )
        } else {
            prev
        }
    }
}

/// What the draw pass leaves of one pool slot: a droplet that is live
/// or still holds its column gets its drawn positions recorded, and a
/// dead one then releases its slot; anything else is untouched.
pub open spec fn spec_pass_droplet(d: Droplet) -> Droplet {
    if d.is_alive || d.holds_column {
        let d1 = Droplet {
            tail_cur_line: match d.tail_put_line {
                Some(tp) => tp,
                None => d.tail_cur_line,
            },
            head_cur_line: d.head_put_line,
            ..d
        };
        if !d1.is_alive && d1.holds_column {
            Droplet { holds_column: false, ..d1 }
        } else {
            d1
        }
    } else {
        d
    }
}

/// One slot's release: a dead droplet that still held a real column
/// decrements that column's count and re-enables spawning there when
/// its tail ended in the top quarter of the viewport.
pub open spec fn spec_release_one(d: Droplet, lines: u16, cs: Seq<ColumnStatus>) -> Seq<
    ColumnStatus,
> {
    if !d.is_alive && d.holds_column && (d.bound_col as int) < cs.len() {
        let col = d.bound_col as int;
        let c0 = cs[col];
        cs.update(
            col,
            ColumnStatus {
                num_droplets: if c0.num_droplets > 0 {
                    (c0.num_droplets - 1) as u8
                } else {
                    0
                },
                can_spawn: c0.can_spawn || (match d.tail_put_line {
                    Some(v) => v,
                    None => 0,
                }) <= lines / 4,
                ..c0
            },
        )
    } else {
        cs
    }
}

/// The column table after the first `k` slots of the draw pass.
pub open spec fn spec_release_cols(
    ds: Seq<Droplet>,
    k: int,
    lines: u16,
    cs: Seq<ColumnStatus>,
) -> Seq<ColumnStatus>
    decreases k,
{
    if k <= 0 {
        cs
    } else {
        spec_release_one(ds[k - 1], lines, spec_release_cols(ds, k - 1, lines, cs))
    }
}

/// One droplet's draw, over the whole grid: its own column takes the
/// drawn cells, the spacer column the spacer cells, everything else is
/// untouched.
pub open spec fn spec_draw_cells(
    d: Droplet,
    env: AttrEnv,
    now: u64,
    draw_all: bool,
    w: u16,
    h: u16,
    cells: Seq<Cell>,
) -> Seq<Cell> {
    if w == 0 {
        cells
    } else {
        Seq::new(
            cells.len(),
            |idx: int|
                {
                    let x = idx % (w as int);
                    let y = idx / (w as int);
                    if y < h as int && x == d.bound_col as int {
                        d.spec_drawn_cell(env, now, draw_all, y as u16, cells[idx])
                    } else if y < h as int && x == d.bound_col as int + 1 {
                        d.spec_spacer_cell(env, now, draw_all, y as u16, cells[idx])
                    } else {
                        cells[idx]
                    }
                },
        )
    }
}

/// What one pool slot paints: a live or still-holding droplet draws,
/// anything else leaves the grid alone.
pub open spec fn spec_slot_cells(
    d: Droplet,
    env: AttrEnv,
    now: u64,
    draw_all: bool,
    w: u16,
    h: u16,
    cells: Seq<Cell>,
) -> Seq<Cell> {
    if d.is_alive || d.holds_column {
        spec_draw_cells(d, env, now, draw_all, w, h, cells)
    } else {
        cells
    }
}

/// The grid after the first `k` slots of the draw pass: each live or
/// still-holding droplet paints over what the ones before it left.
pub open spec fn spec_draw_pass_cells(
    ds: Seq<Droplet>,
    k: int,
    env: AttrEnv,
    now: u64,
    draw_all: bool,
    w: u16,
    h: u16,
    cells: Seq<Cell>,
) -> Seq<Cell>
    decreases k,
{
    if k <= 0 {
        cells
    } else {
        spec_slot_cells(
            ds[k - 1],
            env,
            now,
            draw_all,
            w,
            h,
            spec_draw_pass_cells(ds, k - 1, env, now, draw_all, w, h, cells),
        )
    }
}

/// What one tick leaves of a pool slot: a live droplet advances one
/// step, then the draw pass records its positions and releases it if it
/// died.
pub open spec fn spec_rain_droplet(d: Droplet, now: u64, lines: u16) -> Droplet {
    spec_pass_droplet(
        if d.is_alive {
            d.spec_advance(now, lines).0
        } else {
            d
        },
    )
}

/// The attribute environment the draw pass of a tick works under: the
/// pre-tick settings and glitch window, with the glyph pool the update
/// pass left (which the rest of the tick does not touch).
pub open spec fn spec_mid_env(pre: Cloud, post: Cloud) -> AttrEnv {
    AttrEnv {
        lines: pre.lines,
        full_width: pre.full_width,
        shading_distance: pre.shading_distance,
        bg: pre.palette.bg,
        color_mode: pre.color_mode,
        bold_mode: pre.bold_mode,
        glitchy: pre.glitchy,
        last_glitch_time: pre.last_glitch_time,
        next_glitch_time: pre.next_glitch_time,
        palette_colors: pre.palette.colors@,
        color_map: pre.color_map@,
        glitch_map: pre.glitch_map@,
        char_pool: post.char_pool@,
    }
}

/// How one unpaused tick turns `pre`/`f_pre` into `post`/`f_post`:
/// there is a mid-tick pool (the droplets after spawning and advancing
/// — which slots the spawner filled depends on the generator) such
/// that every pre-tick live droplet advanced one step, the draw pass
/// drew and released exactly those droplets over the (optionally
/// cleared) frame, the message was revealed against that drawn frame
/// and painted over it, and the column table took exactly the releases.
pub open spec fn spec_rain_tick(pre: Cloud, post: Cloud, f_pre: Frame, f_post: Frame, now: u64) -> bool {
    exists|mid: Seq<Droplet>, cs_mid: Seq<ColumnStatus>|
        #![trigger spec_release_cols(mid, mid.len() as int, pre.lines, cs_mid)]
        {
            let base = if pre.force_draw_all {
                Seq::new(f_pre.cells@.len(), |i: int| spec_blank_cell(None))
            } else {
                f_pre.cells@
            };
            let drawn = spec_draw_pass_cells(
                mid,
                mid.len() as int,
                spec_mid_env(pre, post),
                now,
                pre.force_draw_all,
                f_pre.width,
                f_pre.height,
                base,
            );
            &&& mid.len() == pre.droplets@.len()
            &&& forall|i: int|
                0 <= i < mid.len() && pre.droplets@[i].is_alive ==> #[trigger] mid[i]
                    == pre.droplets@[i].spec_advance(now, pre.lines).0
            &&& forall|i: int|
                0 <= i < mid.len() ==> #[trigger] post.droplets@[i] == spec_pass_droplet(mid[i])
            &&& cs_mid.len() == pre.col_stat@.len()
            &&& forall|c: int|
                0 <= c < cs_mid.len() ==> (#[trigger] cs_mid[c]).max_speed_permille
                    == pre.col_stat@[c].max_speed_permille
            &&& post.col_stat@ == spec_release_cols(mid, mid.len() as int, pre.lines, cs_mid)
            &&& post.message@.len() == pre.message@.len()
            &&& forall|i: int|
                0 <= i < post.message@.len() ==> #[trigger] post.message@[i] == (if i
                    < spec_msg_stop(pre.message@) && spec_msg_visible_at(
                    pre.message@[i],
                    f_pre.width,
                    f_pre.height,
                    drawn,
                ) {
                    MsgChr { draw: true, ..pre.message@[i] }
                } else {
                    pre.message@[i]
                })
            &&& f_post.cells@ == spec_draw_message_cells(
                post.message@,
                post.message@.len() as int,
                pre.color_mode == ColorMode::Mono,
                pre.palette.colors@,
                pre.palette.bg,
                pre.bold_mode != BoldMode::Off,
                f_pre.width,
                f_pre.height,
                drawn,
            )
        }
}

/// A frame whose every in-range cell took one droplet's per-coordinate
/// draw outcome equals, as a flat grid, that droplet's `spec_draw_cells`.
pub proof fn lemma_draw_to_cells(
    d0: Droplet,
    env: AttrEnv,
    now: u64,
    draw_all: bool,
    f_pre: Frame,
    f_post: Frame,
)
    requires
        f_pre.wf(),
        f_post.width == f_pre.width,
        f_post.height == f_pre.height,
        f_post.cells@.len() == f_pre.cells@.len(),
        forall|x: u16, y: u16|
            x < f_pre.width && y < f_pre.height ==> #[trigger] f_post.spec_at(x as int, y as int)
                == {
                let prev = f_pre.spec_at(x as int, y as int);
                if x == d0.bound_col {
                    d0.spec_drawn_cell(env, now, draw_all, y, prev)
                } else if x == d0.bound_col + 1 {
                    d0.spec_spacer_cell(env, now, draw_all, y, prev)
                } else {
                    prev
                }
            },
    ensures
        f_post.cells@ == spec_draw_cells(
            d0,
            env,
            now,
            draw_all,
            f_pre.width,
            f_pre.height,
            f_pre.cells@,
        ),
{
    let w = f_pre.width;
    let h = f_pre.height;
    if w == 0 {
        assert(f_post.cells@.len() == 0);
        assert(f_post.cells@ =~= spec_draw_cells(d0, env, now, draw_all, w, h, f_pre.cells@));
    } else {
        assert forall|idx: int|
            0 <= idx < f_post.cells@.len() implies #[trigger] f_post.cells@[idx]
            == spec_draw_cells(d0, env, now, draw_all, w, h, f_pre.cells@)[idx] by {
            crate::frame::lemma_cell_coords(idx, w as int, h as int);
            let x = (idx % (w as int)) as u16;
            let y = (idx / (w as int)) as u16;
            assert(f_post.spec_at(x as int, y as int) == f_post.cells@[idx]);
            assert(f_pre.spec_at(x as int, y as int) == f_pre.cells@[idx]);
        }
        assert(f_post.cells@ =~= spec_draw_cells(d0, env, now, draw_all, w, h, f_pre.cells@));
    }
}

/// The layout state — target line, target column and characters still
/// to place — when the `k`-th message character is positioned: the text
/// runs row-major over the middle half of the columns, vertically
/// centered, each partially filled row offset to center it.
pub open spec fn spec_msg_state(k: int, cols: u16, lines: u16, msg_len: int) -> (int, int, int)
    decreases k,
{
    let first_col = cols as int / 4;
    let last_col = (3 * cols as int) / 4;
    let cpc = last_col - first_col + 1;
    let mlen = if msg_len > 0xffff {
        0xffff
    } else {
        msg_len
    };
    let msg_lines = mlen / cpc + 1;
    let half = lines as int / 2;
    let first_line = if half >= msg_lines / 2 {
        half - msg_lines / 2
    } else {
        0
    };
    if k <= 0 {
        (
            first_line,
            first_col + (if mlen < cpc {
                (cpc - mlen) / 2
            } else {
                0
            }),
            mlen,
        )
    } else {
        let prev = spec_msg_state(k - 1, cols, lines, msg_len);
        let l = prev.0;
        let c = prev.1;
        let r = prev.2;
        let nr = if r > 0 {
            r - 1
        } else {
            0
        };
        if c == last_col {
            (
                if l < 0xffff_ffff {
                    l + 1
                } else {
                    l
                },
                first_col + (if r < cpc {
                    (cpc - r) / 2
                } else {
                    0
                }),
                nr,
            )
        } else {
            (l, c + 1, nr)
        }
    }
}

/// The target cell the layout gives the `k`-th message character; a
/// character that falls under the viewport parks out of reach.
pub open spec fn spec_msg_pos(k: int, cols: u16, lines: u16, msg_len: int) -> (u16, u16) {
    let st = spec_msg_state(k, cols, lines, msg_len);
    if st.0 < lines as int {
        (
            st.0 as u16,
            if st.1 <= 0xffff {
                st.1 as u16
            } else {
                0xffff
            },
        )
    } else {
        (0xffff, 0xffff)
    }
}

/// Index of the first message character without a laid-out target, or
/// the message length; the reveal scan stops there.
pub open spec fn spec_msg_stop(msg: Seq<MsgChr>) -> int
    decreases msg.len(),
{
    if msg.len() == 0 {
        0
    } else if msg[0].line == 0xffff || msg[0].col == 0xffff {
        0
    } else {
        1 + spec_msg_stop(msg.drop_first())
    }
}

/// The scan stops exactly at the first unset target.
pub proof fn lemma_msg_stop_at(msg: Seq<MsgChr>, k: int)
    requires
        0 <= k < msg.len(),
        msg[k].line == 0xffff || msg[k].col == 0xffff,
        forall|j: int|
            0 <= j < k ==> !((#[trigger] msg[j]).line == 0xffff || msg[j].col == 0xffff),
    ensures
        spec_msg_stop(msg) == k,
    decreases k,
{
    if k > 0 {
        assert forall|j: int|
            0 <= j < k - 1 implies !((#[trigger] msg.drop_first()[j]).line == 0xffff
            || msg.drop_first()[j].col == 0xffff) by {
            assert(msg.drop_first()[j] == msg[j + 1]);
        }
        assert(msg.drop_first()[k - 1] == msg[k]);
        lemma_msg_stop_at(msg.drop_first(), k - 1);
    }
}

/// A fully laid-out message is scanned to its end.
pub proof fn lemma_msg_stop_all(msg: Seq<MsgChr>)
    requires
        forall|j: int|
            0 <= j < msg.len() ==> !((#[trigger] msg[j]).line == 0xffff || msg[j].col == 0xffff),
    ensures
        spec_msg_stop(msg) == msg.len(),
    decreases msg.len(),
{
    if msg.len() > 0 {
        assert forall|j: int|
            0 <= j < msg.drop_first().len() implies !((#[trigger] msg.drop_first()[j]).line
            == 0xffff || msg.drop_first()[j].col == 0xffff) by {
            assert(msg.drop_first()[j] == msg[j + 1]);
        }
        lemma_msg_stop_all(msg.drop_first());
    }
}

/// Whether a message character's target cell of a flat grid shows a
/// non-blank glyph.
pub open spec fn spec_msg_visible_at(mc: MsgChr, w: u16, h: u16, cells: Seq<Cell>) -> bool {
    mc.col < w && mc.line < h && cells[mc.line as int * w as int + mc.col as int].ch != ' '
}

/// Whether a message character's target cell shows a non-blank glyph.
pub open spec fn spec_msg_visible(mc: MsgChr, f: Frame) -> bool {
    spec_msg_visible_at(mc, f.width, f.height, f.cells@)
}

/// The cell one revealed message character paints: its glyph in the
/// palette's brightest color (none in monochrome) over the palette
/// background, bold unless bold is off.
pub open spec fn spec_msg_cell(
    mc: MsgChr,
    mono: bool,
    palette: Seq<TermColor>,
    bg: Option<TermColor>,
    bold_on: bool,
) -> Cell {
    Cell {
        ch: mc.val,
        fg: if mono {
            None
        } else {
            Some(palette.last())
        },
        bg: bg,
        bold: bold_on,
    }
}

/// The grid after the first `k` message characters drew themselves:
/// each revealed, laid-out, in-viewport character paints its cell.
pub open spec fn spec_draw_message_cells(
    msg: Seq<MsgChr>,
    k: int,
    mono: bool,
    palette: Seq<TermColor>,
    bg: Option<TermColor>,
    bold_on: bool,
    w: u16,
    h: u16,
    cells: Seq<Cell>,
) -> Seq<Cell>
    decreases k,
{
    if k <= 0 {
        cells
    } else {
        let prev = spec_draw_message_cells(msg, k - 1, mono, palette, bg, bold_on, w, h, cells);
        let mc = msg[k - 1];
        if mc.draw && !(mc.line == 0xffff || mc.col == 0xffff) && mc.col < w && mc.line < h {
            prev.update(
                mc.line as int * w as int + mc.col as int,
                spec_msg_cell(mc, mono, palette, bg, bold_on),
            )
        } else {
            prev
        }
    }
}

/// A droplet with its speed recomputed from its column's scale and the
/// global speed; dormant or unbound droplets are untouched.
pub open spec fn spec_resped(d: Droplet, cols: Seq<ColumnStatus>, cps_milli: u64) -> Droplet {
    if d.is_alive && (d.bound_col as int) < cols.len() {
        Droplet {
            chars_per_sec_milli: ((cols[d.bound_col as int].max_speed_permille as int
                * cps_milli as int) / 1000) as u64,
            ..d
        }
    } else {
        d
    }
}

/// The highest base color index the map may hold for a palette of `n`
/// colors (the byte the interior bound wraps to).
pub open spec fn spec_cmap_hi(n: int) -> u8 {
    if n < 3 {
        0
    } else if n == 3 {
        1
    } else {
        (((n - 2) % 256) as u8)
    }
}

/// The lowest base color index the map may hold for a palette of `n`
/// colors; collapses onto the high bound where the wrapped interior
/// bound falls below it.
pub open spec fn spec_cmap_lo(n: int) -> u8 {
    if n < 3 {
        0
    } else if spec_cmap_hi(n) == 0 {
        0
    } else {
        1
    }
}

/// Copy a vector of plain values.
fn dup_vec<T: Copy>(v: &Vec<T>) -> (r: Vec<T>)
    ensures
        r@ == v@,
{
    let mut out: Vec<T> = Vec::new();
    let mut i: usize = 0;
    while i < v.len()
        invariant
            i <= v@.len(),
            out@ =~= v@.subrange(0, i as int),
        decreases v@.len() - i,
    {
        out.push(v[i]);
        i = i + 1;
    }
    proof {
        assert(out@ =~= v@);
    }
    out
}

/// The product under the spawn-rate formula stays below 2^63.
proof fn lemma_dps_bound(cols: int, density_pm: int, cps_milli: int)
    by (nonlinear_arith)
    requires
        0 <= cols <= 0xffff,
        0 <= density_pm <= MAX_DENSITY_PM,
        0 <= cps_milli <= MAX_CPS_MILLI,
    ensures
        0 <= cols * density_pm * cps_milli <= 0xffff * (MAX_DENSITY_PM as int) * (
        MAX_CPS_MILLI as int),
        0 <= cols * density_pm <= 0xffff * (MAX_DENSITY_PM as int),
{
}

/// A per-mille scale times a bounded speed stays within 64 bits.
proof fn lemma_speed_bound(pct: int, cps: int)
    by (nonlinear_arith)
    requires
        0 <= pct <= 1000,
        0 <= cps <= MAX_CPS_MILLI,
    ensures
        0 <= pct * cps <= 1000 * (MAX_CPS_MILLI as int),
{
}

impl Cloud {
    /// Recompute the spawn rate from the viewport, density and speed.
    pub fn recalc_droplets_per_sec(&mut self)
        requires
            old(self).wf(),
        ensures
            *final(self) == (Cloud {
                droplets_per_sec_milli: final(self).droplets_per_sec_milli,
                ..*old(self)
            }),
            final(self).droplets_per_sec_milli == spec_dps_milli(
                old(self).cols,
                old(self).droplet_density_pm,
                old(self).chars_per_sec_milli,
                old(self).lines,
            ),
            final(self).wf(),
    {
        proof {
            lemma_dps_bound(
                self.cols as int,
                self.droplet_density_pm as int,
                self.chars_per_sec_milli as int,
            );
        }
        let num: u128 = (self.cols as u128) * (self.droplet_density_pm as u128) * (
        self.chars_per_sec_milli as u128);
        let den: u128 = 1000 * (if self.lines == 0 {
            1
        } else {
            self.lines as u128
        });
        let dps: u128 = num / den;
        proof {
            assert(dps <= num) by {
                vstd::arithmetic::div_mod::lemma_div_is_ordered_by_denominator(
                    num as int,
                    1,
                    den as int,
                );
            }
        }
        self.droplets_per_sec_milli = (dps / 1) as u64;
    }

    /// Rebuild the glitch-eligibility map: one draw per cell at the
    /// configured chance, or an empty map when glitches are off.
    pub fn fill_glitch_map(&mut self)
        requires
            old(self).wf(),
        ensures
            *final(self) == (Cloud {
                glitch_map: final(self).glitch_map,
                rng: final(self).rng,
                ..*old(self)
            }),
            old(self).glitchy ==> final(self).glitch_map@.len() == old(self).lines as int * old(self).cols as int,
            !old(self).glitchy ==> final(self).glitch_map@.len() == 0,
            old(self).glitch_ppm == 0 ==> forall|i: int|
                0 <= i < final(self).glitch_map@.len() ==> !final(self).glitch_map@[i],
            old(self).glitch_ppm == CHANCE_SCALE ==> forall|i: int|
                0 <= i < final(self).glitch_map@.len() ==> final(self).glitch_map@[i],
            final(self).wf(),
    {
        if !self.glitchy {
            self.glitch_map.clear();
            return;
        }
        proof {
            lemma_u16_mul_bound(self.lines as int, self.cols as int);
        }
        let size: usize = self.lines as usize * self.cols as usize;
        let mut map: Vec<bool> = Vec::new();
        let mut i: usize = 0;
        while i < size
            invariant
                i <= size,
                map@.len() == i as int,
                self.glitch_ppm == old(self).glitch_ppm,
                self.glitch_ppm <= CHANCE_SCALE,
                old(self).glitch_ppm == 0 ==> forall|j: int| 0 <= j < i as int ==> !map@[j],
                old(self).glitch_ppm == CHANCE_SCALE ==> forall|j: int|
                    0 <= j < i as int ==> map@[j],
                *self == (Cloud { glitch_map: self.glitch_map, rng: self.rng, ..*old(self) }),
            decreases size - i,
        {
            let draw: u64 = sample_inclusive(&mut self.rng, 0, (CHANCE_SCALE - 1) as u64);
            map.push(draw < self.glitch_ppm as u64);
            i = i + 1;
        }
        self.glitch_map = map;
    }

    /// Rebuild the per-cell base color-index map with draws over a
    /// palette-dependent range: a lone possibility for palettes of fewer
    /// than three colors, the middle entry at three, and the interior of
    /// the ramp above that.
    pub fn fill_color_map(&mut self)
        requires
            old(self).wf(),
        ensures
            *final(self) == (Cloud {
                color_map: final(self).color_map,
                rng: final(self).rng,
                ..*old(self)
            }),
            final(self).color_map@.len() == old(self).lines as int * old(self).cols as int,
            forall|i: int|
                0 <= i < final(self).color_map@.len() ==> spec_cmap_lo(
                    old(self).palette.colors@.len() as int,
                ) <= #[trigger] final(self).color_map@[i] <= spec_cmap_hi(
                    old(self).palette.colors@.len() as int,
                ),
            final(self).wf(),
    {
        proof {
            lemma_u16_mul_bound(self.lines as int, self.cols as int);
        }
        let size: usize = self.lines as usize * self.cols as usize;
        let n: usize = self.palette.colors.len();
        let (low, high): (u8, u8) = if n < 3 {
            (0, 0)
        } else if n == 3 {
            (1, 1)
        } else {
            (1, ((n - 2) % 256) as u8)
        };
        let lo: u8 = if low <= high {
            low
        } else {
            high
        };
        proof {
            assert(lo == spec_cmap_lo(old(self).palette.colors@.len() as int));
            assert(high == spec_cmap_hi(old(self).palette.colors@.len() as int));
        }
        let mut map: Vec<u8> = Vec::new();
        let mut i: usize = 0;
        while i < size
            invariant
                i <= size,
                map@.len() == i as int,
                lo <= high,
                lo == spec_cmap_lo(old(self).palette.colors@.len() as int),
                high == spec_cmap_hi(old(self).palette.colors@.len() as int),
                forall|j: int| 0 <= j < i as int ==> lo <= #[trigger] map@[j] <= high,
                *self == (Cloud { color_map: self.color_map, rng: self.rng, ..*old(self) }),
            decreases size - i,
        {
            let draw: u64 = sample_inclusive(&mut self.rng, lo as u64, high as u64);
            map.push(draw as u8);
            i = i + 1;
        }
        self.color_map = map;
    }

    /// Randomize each column's speed scale in async mode; set all scales
    /// to full speed otherwise.
    pub fn set_column_speeds(&mut self)
        requires
            old(self).wf(),
        ensures
            *final(self) == (Cloud {
                col_stat: final(self).col_stat,
                rng: final(self).rng,
                ..*old(self)
            }),
            final(self).col_stat@.len() == old(self).col_stat@.len(),
            forall|i: int|
                0 <= i < final(self).col_stat@.len() ==> (#[trigger] final(self).col_stat@[i])
                    == (ColumnStatus {
                    max_speed_permille: final(self).col_stat@[i].max_speed_permille,
                    ..old(self).col_stat@[i]
                }),
            forall|i: int|
                0 <= i < final(self).col_stat@.len() ==> 1 <= (#[trigger] final(self).col_stat@[i]).max_speed_permille <= 1000,
            !old(self).async_mode ==> forall|i: int|
                0 <= i < final(self).col_stat@.len() ==> (#[trigger] final(self).col_stat@[i]).max_speed_permille == 1000,
            old(self).async_mode ==> forall|i: int|
                0 <= i < final(self).col_stat@.len() ==> 333 <= (#[trigger] final(self).col_stat@[i]).max_speed_permille <= 1000,
            old(self).col_accounting() ==> final(self).col_accounting(),
            final(self).wf(),
    {
        let n: usize = self.col_stat.len();
        let mut i: usize = 0;
        while i < n
            invariant
                i <= n,
                self.col_stat@.len() == n as int,
                old(self).col_accounting() ==> self.col_accounting(),
                self.async_mode == old(self).async_mode,
                *self == (Cloud { col_stat: self.col_stat, rng: self.rng, ..*old(self) }),
                forall|j: int|
                    i as int <= j < n as int ==> #[trigger] self.col_stat@[j] == old(self).col_stat@[j],
                forall|j: int|
                    0 <= j < i as int ==> (#[trigger] self.col_stat@[j]) == (ColumnStatus {
                        max_speed_permille: self.col_stat@[j].max_speed_permille,
                        ..old(self).col_stat@[j]
                    }),
                forall|j: int|
                    0 <= j < i as int ==> 1 <= (#[trigger] self.col_stat@[j]).max_speed_permille
                        <= 1000,
                !self.async_mode ==> forall|j: int|
                    0 <= j < i as int ==> (#[trigger] self.col_stat@[j]).max_speed_permille
                        == 1000,
                self.async_mode ==> forall|j: int|
                    0 <= j < i as int ==> 333 <= (#[trigger] self.col_stat@[j]).max_speed_permille <= 1000,
            decreases n - i,
        {
            let pct: u32 = if self.async_mode {
                sample_inclusive(&mut self.rng, 333, 1000) as u32
            } else {
                1000
            };
            let ghost cs_pre = self.col_stat@;
            let mut cs = self.col_stat[i];
            cs.max_speed_permille = pct;
            self.col_stat.set(i, cs);
            proof {
                if old(self).col_accounting() {
                    assert forall|c: int|
                        0 <= c < self.col_stat@.len() implies (
                    #[trigger] self.col_stat@[c]).num_droplets as int == spec_count_col(
                        self.droplets@,
                        c,
                    ) by {
                        assert(cs_pre[c].num_droplets as int == spec_count_col(
                            self.droplets@,
                            c,
                        ));
                    }
                }
            }
            i = i + 1;
        }
    }

    /// Give every live droplet the speed its column's scale and the
    /// global speed dictate.
    pub fn update_droplet_speeds(&mut self)
        requires
            old(self).wf(),
        ensures
            *final(self) == (Cloud { droplets: final(self).droplets, ..*old(self) }),
            final(self).droplets@.len() == old(self).droplets@.len(),
            forall|i: int|
                0 <= i < final(self).droplets@.len() ==> #[trigger] final(self).droplets@[i]
                    == spec_resped(old(self).droplets@[i], old(self).col_stat@, old(self).chars_per_sec_milli),
            old(self).col_accounting() ==> final(self).col_accounting(),
            final(self).wf(),
    {
        let n: usize = self.droplets.len();
        let mut i: usize = 0;
        while i < n
            invariant
                i <= n,
                old(self).wf(),
                old(self).col_accounting() ==> self.col_accounting(),
                self.droplets@.len() == n as int,
                self.chars_per_sec_milli <= MAX_CPS_MILLI,
                *self == (Cloud { droplets: self.droplets, ..*old(self) }),
                forall|j: int|
                    i as int <= j < n as int ==> #[trigger] self.droplets@[j] == old(self).droplets@[j],
                forall|j: int|
                    0 <= j < i as int ==> #[trigger] self.droplets@[j] == spec_resped(
                        old(self).droplets@[j],
                        old(self).col_stat@,
                        old(self).chars_per_sec_milli,
                    ),
            decreases n - i,
        {
            let d = self.droplets[i];
            if d.is_alive && (d.bound_col as usize) < self.col_stat.len() {
                let pct: u32 = self.col_stat[d.bound_col as usize].max_speed_permille;
                proof {
                    lemma_speed_bound(pct as int, self.chars_per_sec_milli as int);
                }
                let ghost ds_pre = self.droplets@;
                let mut nd = d;
                nd.chars_per_sec_milli = (pct as u64) * self.chars_per_sec_milli / 1000;
                self.droplets.set(i, nd);
                proof {
                    if old(self).col_accounting() {
                        assert forall|c: int|
                            0 <= c < self.col_stat@.len() implies (
                        #[trigger] self.col_stat@[c]).num_droplets as int == spec_count_col(
                            self.droplets@,
                            c,
                        ) by {
                            lemma_count_col_update(ds_pre, i as int, nd, c);
                        }
                    }
                }
            }
            i = i + 1;
        }
        proof {
            assert forall|i: int| 0 <= i < self.droplets@.len() implies (#[trigger] self.droplets@[i]).wf() by {
                assert(old(self).droplets@[i].wf());
            }
        }
    }

    /// Allow or forbid spawning in one column; out-of-range columns
    /// change nothing.
    pub fn set_column_spawn(&mut self, col: u16, b: bool)
        ensures
            *final(self) == (Cloud { col_stat: final(self).col_stat, ..*old(self) }),
            final(self).col_stat@.len() == old(self).col_stat@.len(),
            (col as int) < old(self).col_stat@.len() ==> final(self).col_stat@ == old(self).col_stat@.update(
                col as int,
                ColumnStatus { can_spawn: b, ..old(self).col_stat@[col as int] },
            ),
            (col as int) >= old(self).col_stat@.len() ==> final(self).col_stat@ == old(self).col_stat@,
            old(self).wf() ==> final(self).wf(),
    {
        if (col as usize) < self.col_stat.len() {
            let mut cs = self.col_stat[col as usize];
            cs.can_spawn = b;
            self.col_stat.set(col as usize, cs);
        }
    }

    /// Force the next pass to redraw every cell.
    pub fn force_draw_everything(&mut self)
        ensures
            *final(self) == (Cloud { force_draw_all: true, ..*old(self) }),
            old(self).wf() ==> final(self).wf(),
    {
        self.force_draw_all = true;
    }

    /// Switch the shading mode and force a full redraw.
    pub fn set_shading_mode(&mut self, sm: ShadingMode)
        ensures
            *final(self) == (Cloud {
                shading_mode: sm,
                shading_distance: sm == ShadingMode::DistanceFromHead,
                force_draw_all: true,
                ..*old(self)
            }),
            old(self).wf() ==> final(self).wf(),
    {
        self.shading_mode = sm;
        self.shading_distance = sm == ShadingMode::DistanceFromHead;
        self.force_draw_all = true;
    }

    /// Replace the palette with the one a new scheme yields, rebuild the
    /// base color map, and force a full redraw.
    pub fn set_color_scheme(&mut self, scheme: ColorScheme)
        requires
            old(self).wf(),
        ensures
            final(self).wf(),
            final(self).color_scheme == scheme,
            final(self).palette.colors@ == spec_palette_colors(
                scheme,
                old(self).color_mode,
                match old(self).user_colors {
                    Some(u) => Some(u.colors@),
                    None => None,
                },
            ),
            final(self).color_map@.len() == old(self).lines as int * old(self).cols as int,
            final(self).force_draw_all,
    {
        self.color_scheme = scheme;
        let user = match &self.user_colors {
            Some(u) => Some(dup_user(u)),
            None => None,
        };
        self.palette = build_palette(
            scheme,
            self.color_mode,
            self.default_background,
            user.as_ref(),
        );
        self.fill_color_map();
        self.force_draw_all = true;
    }

    /// Change async mode and reroll column and droplet speeds.
    pub fn set_async(&mut self, on: bool)
        requires
            old(self).wf(),
        ensures
            final(self).wf(),
            final(self).async_mode == on,
            final(self).col_stat@.len() == old(self).col_stat@.len(),
            final(self).droplets@.len() == old(self).droplets@.len(),
            old(self).col_accounting() ==> final(self).col_accounting(),
    {
        self.async_mode = on;
        self.set_column_speeds();
        self.update_droplet_speeds();
    }

    /// Change the global speed (in milli-glyphs per second) and
    /// recompute everything that depends on it.
    pub fn set_chars_per_sec(&mut self, cps_milli: u64)
        requires
            old(self).wf(),
            1 <= cps_milli <= MAX_CPS_MILLI,
        ensures
            final(self).wf(),
            final(self).chars_per_sec_milli == cps_milli,
            final(self).droplets_per_sec_milli == spec_dps_milli(
                old(self).cols,
                old(self).droplet_density_pm,
                cps_milli,
                old(self).lines,
            ),
            old(self).col_accounting() ==> final(self).col_accounting(),
    {
        self.chars_per_sec_milli = cps_milli;
        self.recalc_droplets_per_sec();
        self.set_column_speeds();
        self.update_droplet_speeds();
    }

    /// Change the droplet density (in per-mille) and recompute the spawn
    /// rate.
    pub fn set_droplet_density(&mut self, density_pm: u32)
        requires
            old(self).wf(),
            1 <= density_pm <= MAX_DENSITY_PM,
        ensures
            final(self).wf(),
            final(self).droplet_density_pm == density_pm,
            final(self).droplets_per_sec_milli == spec_dps_milli(
                old(self).cols,
                density_pm,
                old(self).chars_per_sec_milli,
                old(self).lines,
            ),
    {
        self.droplet_density_pm = density_pm;
        self.recalc_droplets_per_sec();
    }

    /// Change the glitch-eligibility chance (over `CHANCE_SCALE`) and
    /// redraw the eligibility map.
    pub fn set_glitch_pct(&mut self, ppm: u32)
        requires
            old(self).wf(),
            ppm <= CHANCE_SCALE,
        ensures
            final(self).wf(),
            final(self).glitch_ppm == ppm,
            ppm == 0 ==> forall|i: int|
                0 <= i < final(self).glitch_map@.len() ==> !final(self).glitch_map@[i],
    {
        self.glitch_ppm = ppm;
        self.fill_glitch_map();
    }

    /// Set the bounds of the glitch window duration, in milliseconds.
    pub fn set_glitch_times(&mut self, low_ms: u16, high_ms: u16)
        requires
            low_ms <= high_ms,
        ensures
            *final(self) == (Cloud {
                glitch_low_ms: low_ms,
                glitch_high_ms: high_ms,
                ..*old(self)
            }),
            old(self).wf() ==> final(self).wf(),
    {
        self.glitch_low_ms = low_ms;
        self.glitch_high_ms = high_ms;
    }

    /// Set the bounds of the linger duration, in milliseconds.
    pub fn set_linger_times(&mut self, low_ms: u16, high_ms: u16)
        requires
            low_ms <= high_ms,
        ensures
            *final(self) == (Cloud {
                linger_low_ms: low_ms,
                linger_high_ms: high_ms,
                ..*old(self)
            }),
            old(self).wf() ==> final(self).wf(),
    {
        self.linger_low_ms = low_ms;
        self.linger_high_ms = high_ms;
    }

    /// Set how many droplets one column may host at once.
    pub fn set_max_droplets_per_column(&mut self, v: u8)
        ensures
            *final(self) == (Cloud { max_droplets_per_column: v, ..*old(self) }),
            old(self).wf() ==> final(self).wf(),
    {
        self.max_droplets_per_column = v;
    }
}

/// Copy a user color table.
fn dup_user(u: &UserColors) -> (r: UserColors)
    ensures
        r.colors@ == u.colors@,
{
    UserColors { colors: dup_vec(&u.colors) }
}

/// The bottom line of a viewport: the normal end line of a streak.
pub open spec fn spec_bottom_line(lines: u16) -> u16 {
    if lines >= 1 {
        (lines - 1) as u16
    } else {
        0
    }
}

/// The highest line an early-dying streak may stop at.
pub open spec fn spec_early_line_max(lines: u16) -> u16 {
    if lines >= 2 {
        (lines - 2) as u16
    } else {
        0
    }
}

/// The longest target length a short streak may draw.
pub open spec fn spec_short_len_max(lines: u16) -> u16 {
    if lines >= 3 {
        (lines - 2) as u16
    } else {
        1
    }
}

/// How one spawn pass may change a column's bookkeeping: either nothing,
/// or one more droplet on a column that allowed spawning and was under
/// the cap, which then stops allowing spawns.
pub open spec fn spec_col_spawn_step(o: ColumnStatus, n: ColumnStatus, max: u8) -> bool {
    ||| n == o
    ||| {
        &&& o.can_spawn
        &&& o.num_droplets < max
        &&& n == (ColumnStatus { num_droplets: (o.num_droplets + 1) as u8, can_spawn: false, ..o })
    }
}

/// How many droplets of the pool hold a slot of column `c`.
pub open spec fn spec_count_col(ds: Seq<Droplet>, c: int) -> int
    decreases ds.len(),
{
    if ds.len() == 0 {
        0
    } else {
        (if ds[0].holds_column && ds[0].bound_col == c {
            1int
        } else {
            0
        }) + spec_count_col(ds.drop_first(), c)
    }
}

/// How many droplets of the pool are alive on column `c`.
pub open spec fn spec_count_alive_col(ds: Seq<Droplet>, c: int) -> int
    decreases ds.len(),
{
    if ds.len() == 0 {
        0
    } else {
        (if ds[0].is_alive && ds[0].bound_col == c {
            1int
        } else {
            0
        }) + spec_count_alive_col(ds.drop_first(), c)
    }
}

/// Replacing one pool slot shifts a column's count by the slots'
/// difference.
pub proof fn lemma_count_col_update(ds: Seq<Droplet>, i: int, d: Droplet, c: int)
    requires
        0 <= i < ds.len(),
    ensures
        spec_count_col(ds.update(i, d), c) == spec_count_col(ds, c) - (if ds[i].holds_column
            && ds[i].bound_col == c {
            1int
        } else {
            0
        }) + (if d.holds_column && d.bound_col == c {
            1int
        } else {
            0
        }),
    decreases ds.len(),
{
    if i == 0 {
        assert(ds.update(0, d).drop_first() =~= ds.drop_first());
    } else {
        assert(ds.update(i, d).drop_first() =~= ds.drop_first().update(i - 1, d));
        lemma_count_col_update(ds.drop_first(), i - 1, d, c);
    }
}

/// A pool with no held slots counts zero everywhere.
pub proof fn lemma_count_col_zero(ds: Seq<Droplet>, c: int)
    requires
        forall|i: int| 0 <= i < ds.len() ==> !(#[trigger] ds[i]).holds_column,
    ensures
        spec_count_col(ds, c) == 0,
    decreases ds.len(),
{
    if ds.len() > 0 {
        assert(forall|i: int|
            0 <= i < ds.drop_first().len() ==> #[trigger] ds.drop_first()[i] == ds[i + 1]);
        lemma_count_col_zero(ds.drop_first(), c);
    }
}

/// A held slot makes its column's count positive.
pub proof fn lemma_count_col_positive(ds: Seq<Droplet>, k: int, c: int)
    requires
        0 <= k < ds.len(),
        ds[k].holds_column,
        ds[k].bound_col == c,
    ensures
        spec_count_col(ds, c) >= 1,
    decreases ds.len(),
{
    lemma_count_col_nonneg(ds.drop_first(), c);
    if k > 0 {
        assert(ds.drop_first()[k - 1] == ds[k]);
        lemma_count_col_positive(ds.drop_first(), k - 1, c);
        lemma_count_col_nonneg(ds, c);
    }
}

/// Column counts are never negative.
pub proof fn lemma_count_col_nonneg(ds: Seq<Droplet>, c: int)
    ensures
        spec_count_col(ds, c) >= 0,
        spec_count_alive_col(ds, c) >= 0,
    decreases ds.len(),
{
    if ds.len() > 0 {
        lemma_count_col_nonneg(ds.drop_first(), c);
    }
}

/// Only live-or-holding slots count: the live droplets of a column are
/// never more numerous than the held slots, since every live droplet
/// holds its slot.
pub proof fn lemma_alive_at_most_held(ds: Seq<Droplet>, c: int)
    requires
        forall|i: int| 0 <= i < ds.len() ==> ((#[trigger] ds[i]).is_alive ==> ds[i].holds_column),
    ensures
        spec_count_alive_col(ds, c) <= spec_count_col(ds, c),
    decreases ds.len(),
{
    if ds.len() > 0 {
        assert(ds[0].is_alive ==> ds[0].holds_column);
        assert(forall|i: int|
            0 <= i < ds.drop_first().len() ==> #[trigger] ds.drop_first()[i] == ds[i + 1]);
        lemma_alive_at_most_held(ds.drop_first(), c);
    }
}

impl Cloud {
    /// The column bookkeeping is faithful: every column's counter equals
    /// the number of pool slots held on it, every live droplet holds its
    /// slot, and every held slot points at a real column.
    pub open spec fn col_accounting(self) -> bool {
        &&& forall|c: int|
            0 <= c < self.col_stat@.len() ==> (#[trigger] self.col_stat@[c]).num_droplets as int
                == spec_count_col(self.droplets@, c)
        &&& forall|i: int|
            0 <= i < self.droplets@.len() ==> ((#[trigger] self.droplets@[i]).is_alive
                ==> self.droplets@[i].holds_column)
        &&& forall|i: int|
            0 <= i < self.droplets@.len() ==> ((#[trigger] self.droplets@[i]).holds_column
                ==> (self.droplets@[i].bound_col as int) < self.col_stat@.len())
    }
}

/// Column spawn gating, in full: under faithful bookkeeping with every
/// counter at or under the cap, no column hosts more than the cap in
/// simultaneously alive droplets.
pub proof fn lemma_alive_per_column_bounded(cl: Cloud, col: int)
    requires
        cl.col_accounting(),
        0 <= col < cl.col_stat@.len(),
        cl.col_stat@[col].num_droplets <= cl.max_droplets_per_column,
    ensures
        spec_count_alive_col(cl.droplets@, col) <= cl.max_droplets_per_column as int,
{
    lemma_alive_at_most_held(cl.droplets@, col);
}

impl Cloud {
    /// Whether the shared glitch window is in its bright phase at `now`.
    pub fn is_bright(&self, now: u64) -> (r: bool)
        ensures
            r == self.env().spec_is_bright(now),
    {
        if now < self.last_glitch_time {
            return false;
        }
        if self.next_glitch_time <= self.last_glitch_time {
            return false;
        }
        let since: u64 = now - self.last_glitch_time;
        let between: u64 = self.next_glitch_time - self.last_glitch_time;
        4 * (since as u128) <= between as u128
    }

    /// Whether the shared glitch window is in its dim phase at `now`.
    pub fn is_dim(&self, now: u64) -> (r: bool)
        ensures
            r == self.env().spec_is_dim(now),
    {
        if now > self.next_glitch_time {
            return true;
        }
        if self.next_glitch_time <= self.last_glitch_time {
            return true;
        }
        let since: u64 = if now >= self.last_glitch_time {
            now - self.last_glitch_time
        } else {
            0
        };
        let between: u64 = self.next_glitch_time - self.last_glitch_time;
        4 * (since as u128) >= 3 * (between as u128)
    }

    /// Whether the cell at `(line, col)` is glitch-eligible.
    pub fn is_glitched(&self, line: u16, col: u16) -> (r: bool)
        ensures
            r == self.env().spec_is_glitched(line, col),
    {
        if !self.glitchy {
            return false;
        }
        proof {
            lemma_u16_mul_bound(col as int, self.lines as int);
        }
        let idx: usize = col as usize * self.lines as usize + line as usize;
        if idx < self.glitch_map.len() {
            self.glitch_map[idx]
        } else {
            false
        }
    }

    /// The glyph a droplet with pool offset `char_pool_idx` shows on
    /// `line`.
    pub fn get_char(&self, line: u16, char_pool_idx: u16) -> (r: char)
        ensures
            r == self.env().spec_get_char(line, char_pool_idx),
    {
        let len: usize = self.char_pool.len();
        if len == 0 {
            return '0';
        }
        let idx: usize = (char_pool_idx as usize + line as usize) % len;
        self.char_pool[idx]
    }

    /// Build the read-only snapshot one draw pass works from.
    pub fn make_ctx(&self) -> (c: DrawCtx)
        ensures
            c.env() == self.env(),
    {
        DrawCtx {
            lines: self.lines,
            full_width: self.full_width,
            shading_distance: self.shading_distance,
            bg: self.palette.bg,
            color_mode: self.color_mode,
            bold_mode: self.bold_mode,
            glitchy: self.glitchy,
            last_glitch_time: self.last_glitch_time,
            next_glitch_time: self.next_glitch_time,
            palette_colors: dup_vec(&self.palette.colors),
            color_map: dup_vec(&self.color_map),
            glitch_map: dup_vec(&self.glitch_map),
            char_pool: dup_vec(&self.char_pool),
        }
    }

    /// Compute the foreground color and bold flag for one cell, exactly
    /// as a draw snapshot of this orchestrator would. A degenerate empty
    /// palette collapses to monochrome rendering: no foreground at all.
    pub fn get_attr(
        &self,
        line: u16,
        col: u16,
        val: char,
        loc: CharLoc,
        now: u64,
        head_put_line: u16,
        length: u16,
    ) -> (r: (Option<TermColor>, bool))
        requires
            self.palette.colors@.len() <= 0xffff,
        ensures
            r.0 == self.env().spec_final_fg(line, col, val, loc, now, head_put_line, length),
            r.1 == self.env().spec_final_bold(line, col, val, loc, now, head_put_line, length),
            self.palette.colors@.len() == 0 ==> r.0 is None,
            loc is Head && self.color_mode != ColorMode::Mono && self.palette.colors@.len() >= 1
                ==> r.0 == Some(self.palette.colors@[self.palette.colors@.len() - 1]),
            loc is Head && self.bold_mode != BoldMode::Off ==> r.1,
    {
        let ctx = self.make_ctx();
        ctx.get_attr(line, col, val, loc, now, head_put_line, length)
    }

    /// Whether a new glitch window is due at `now`.
    pub fn time_for_glitch(&self, now: u64) -> (r: bool)
        ensures
            r == (self.glitchy && now >= self.next_glitch_time),
    {
        self.glitchy && now >= self.next_glitch_time
    }

    /// Substitute glyphs from the secondary pool into the primary pool at
    /// every glitch-eligible cell of one droplet's visible span, rotating
    /// the secondary cursor; empty pools leave everything unchanged.
    pub fn do_glitch_span(&mut self, start_line: u16, hp: u16, col: u16, cp_idx: u16)
        requires
            old(self).wf(),
        ensures
            *final(self) == (Cloud {
                char_pool: final(self).char_pool,
                glitch_pool_idx: final(self).glitch_pool_idx,
                ..*old(self)
            }),
            (final(self).char_pool@, final(self).glitch_pool_idx as int) == spec_glitch_span(
                old(self).char_pool@,
                old(self).glitch_pool@,
                old(self).glitch_pool_idx as int,
                old(self).glitchy,
                old(self).glitch_map@,
                old(self).lines,
                start_line as int,
                hp,
                col,
                cp_idx,
            ),
            final(self).char_pool@.len() == old(self).char_pool@.len(),
            forall|i: int|
                0 <= i < final(self).char_pool@.len() ==> (#[trigger] final(self).char_pool@[i]
                    == old(self).char_pool@[i] || old(self).glitch_pool@.contains(
                    final(self).char_pool@[i],
                )),
            final(self).wf(),
    {
        let ghost total = spec_glitch_span(
            old(self).char_pool@,
            old(self).glitch_pool@,
            old(self).glitch_pool_idx as int,
            old(self).glitchy,
            old(self).glitch_map@,
            old(self).lines,
            start_line as int,
            hp,
            col,
            cp_idx,
        );
        if !self.glitchy {
            return;
        }
        if self.char_pool.len() == 0 || self.glitch_pool.len() == 0 {
            return;
        }
        let cp_len: usize = self.char_pool.len();
        let gp_len: usize = self.glitch_pool.len();
        let mut line: u32 = start_line as u32;
        while line <= hp as u32 && line < self.lines as u32
            invariant
                old(self).wf(),
                start_line as int <= line as int,
                cp_len == self.char_pool@.len(),
                cp_len > 0,
                gp_len == self.glitch_pool@.len(),
                gp_len > 0,
                self.glitchy,
                total == spec_glitch_span(
                    self.char_pool@,
                    old(self).glitch_pool@,
                    self.glitch_pool_idx as int,
                    old(self).glitchy,
                    old(self).glitch_map@,
                    old(self).lines,
                    line as int,
                    hp,
                    col,
                    cp_idx,
                ),
                *self == (Cloud {
                    char_pool: self.char_pool,
                    glitch_pool_idx: self.glitch_pool_idx,
                    ..*old(self)
                }),
                forall|i: int|
                    0 <= i < self.char_pool@.len() ==> (#[trigger] self.char_pool@[i] == old(self).char_pool@[i] || old(self).glitch_pool@.contains(self.char_pool@[i])),
            decreases hp as int + 1 - line,
        {
            if self.is_glitched(line as u16, col) {
                let char_idx: usize = (cp_idx as usize + line as usize) % cp_len;
                let gp_cur: usize = self.glitch_pool_idx % gp_len;
                let repl: char = self.glitch_pool[gp_cur];
                self.char_pool.set(char_idx, repl);
                self.glitch_pool_idx = (gp_cur + 1) % gp_len;
            }
            line = line + 1;
        }
        proof {
            assert(total == (self.char_pool@, self.glitch_pool_idx as int));
        }
    }

    /// Draw a fresh end line: the bottom, unless the early-death chance
    /// fires, which picks a line from the rows strictly above the bottom.
    pub fn sample_end_line(&mut self) -> (e: u16)
        requires
            old(self).wf(),
        ensures
            *final(self) == (Cloud { rng: final(self).rng, ..*old(self) }),
            final(self).wf(),
            old(self).die_early_ppm == 0 ==> e == spec_bottom_line(old(self).lines),
            old(self).die_early_ppm == CHANCE_SCALE ==> e <= spec_early_line_max(old(self).lines),
            e == spec_bottom_line(old(self).lines) || e <= spec_early_line_max(old(self).lines),
    {
        let lines: u16 = self.lines;
        let mut end_line: u16 = if lines >= 1 {
            lines - 1
        } else {
            0
        };
        let chance: u64 = sample_inclusive(&mut self.rng, 0, (CHANCE_SCALE - 1) as u64);
        if chance < self.die_early_ppm as u64 {
            let hi: u16 = if lines >= 2 {
                lines - 2
            } else {
                0
            };
            end_line = sample_inclusive(&mut self.rng, 0, hi as u64) as u16;
        }
        end_line
    }

    /// Draw a fresh target length: the full height, unless the short
    /// chance fires, which picks a shorter length.
    pub fn sample_length(&mut self) -> (l: u16)
        requires
            old(self).wf(),
        ensures
            *final(self) == (Cloud { rng: final(self).rng, ..*old(self) }),
            final(self).wf(),
            old(self).short_ppm == 0 ==> l == old(self).lines,
            old(self).short_ppm == CHANCE_SCALE ==> 1 <= l <= spec_short_len_max(old(self).lines),
            l == old(self).lines || (1 <= l <= spec_short_len_max(old(self).lines)),
    {
        let lines: u16 = self.lines;
        let mut len: u16 = lines;
        let chance: u64 = sample_inclusive(&mut self.rng, 0, (CHANCE_SCALE - 1) as u64);
        if chance < self.short_ppm as u64 {
            let hi: u16 = if lines >= 3 {
                lines - 2
            } else {
                1
            };
            len = sample_inclusive(&mut self.rng, 1, hi as u64) as u16;
        }
        len
    }

    /// The speed a droplet on `col` gets: the column's scale times the
    /// global speed.
    pub fn column_speed(&self, col: u16) -> (s: u64)
        requires
            self.wf(),
        ensures
            s == ((if (col as int) < self.col_stat@.len() {
                self.col_stat@[col as int].max_speed_permille as int
            } else {
                1000
            }) * self.chars_per_sec_milli as int) / 1000,
    {
        let pct: u32 = if (col as usize) < self.col_stat.len() {
            self.col_stat[col as usize].max_speed_permille
        } else {
            1000
        };
        proof {
            lemma_speed_bound(pct as int, self.chars_per_sec_milli as int);
        }
        (pct as u64) * self.chars_per_sec_milli / 1000
    }

    /// Give a droplet freshly randomized spawn parameters on `col`: its
    /// end line, target length, glyph-pool offset, linger duration and
    /// speed; position and clock bookkeeping start at the top.
    pub fn fill_droplet(&mut self, d: &mut Droplet, col: u16)
        requires
            old(self).wf(),
        ensures
            *final(self) == (Cloud { rng: final(self).rng, ..*old(self) }),
            final(self).wf(),
            final(d).is_alive == old(d).is_alive,
            final(d).is_head_crawling == old(d).is_head_crawling,
            final(d).is_tail_crawling == old(d).is_tail_crawling,
            final(d).holds_column == old(d).holds_column,
            final(d).advance_rem_micro == old(d).advance_rem_micro,
            final(d).last_time == old(d).last_time,
            final(d).bound_col == col,
            final(d).head_put_line == 0,
            final(d).head_cur_line == 0,
            final(d).tail_put_line is None,
            final(d).tail_cur_line == 0,
            final(d).head_stop_time is None,
            final(d).char_pool_idx <= 2047,
            // The end line is the bottom, unless the early-death draw
            // fires, which picks a line strictly above the bottom.
            old(self).die_early_ppm == 0 ==> final(d).end_line == spec_bottom_line(
                old(self).lines,
            ),
            old(self).die_early_ppm == CHANCE_SCALE ==> final(d).end_line <= spec_early_line_max(
                old(self).lines,
            ),
            final(d).end_line == spec_bottom_line(old(self).lines) || final(d).end_line
                <= spec_early_line_max(old(self).lines),
            // The target length is the full height, unless the short draw
            // fires.
            old(self).short_ppm == 0 ==> final(d).length == old(self).lines,
            old(self).short_ppm == CHANCE_SCALE ==> 1 <= final(d).length <= spec_short_len_max(
                old(self).lines,
            ),
            final(d).length == old(self).lines || (1 <= final(d).length <= spec_short_len_max(
                old(self).lines,
            )),
            // A streak that will stop before exhausting its length budget
            // lingers for a configured duration; others get a token
            // millisecond.
            final(d).end_line <= final(d).length ==> old(self).linger_low_ms
                <= final(d).time_to_linger_ms <= old(self).linger_high_ms,
            final(d).end_line > final(d).length ==> final(d).time_to_linger_ms == 1,
            // The speed scales the global speed by the column's factor.
            final(d).chars_per_sec_milli == ((if (col as int) < old(self).col_stat@.len() {
                old(self).col_stat@[col as int].max_speed_permille as int
            } else {
                1000
            }) * old(self).chars_per_sec_milli as int) / 1000,
            old(d).wf() && !old(d).is_alive ==> final(d).wf(),
    {
        let end_line: u16 = self.sample_end_line();
        let cp_idx: u16 = sample_inclusive(&mut self.rng, 0, 2047) as u16;
        let len: u16 = self.sample_length();
        let mut ttl: u64 = 1;
        if end_line <= len {
            ttl = sample_inclusive(
                &mut self.rng,
                self.linger_low_ms as u64,
                self.linger_high_ms as u64,
            );
        }
        let speed: u64 = self.column_speed(col);
        d.bound_col = col;
        d.end_line = end_line;
        d.char_pool_idx = cp_idx;
        d.length = len;
        d.chars_per_sec_milli = speed;
        d.time_to_linger_ms = ttl;
        d.head_put_line = 0;
        d.head_cur_line = 0;
        d.tail_put_line = None;
        d.tail_cur_line = 0;
        d.head_stop_time = None;
    }

    /// Spawn droplets for the time elapsed since the last spawn: a
    /// time-budgeted number of attempts, each picking a random column,
    /// respecting its spawn gate and cap, and filling the next dormant
    /// pool slot. A column gains at most one droplet per pass, only if it
    /// allowed spawning and sat under the cap, and then stops allowing
    /// spawns; live droplets are never touched.
    #[verifier::rlimit(100)]
    pub fn spawn_droplets(&mut self, now: u64)
        requires
            old(self).wf(),
        ensures
            *final(self) == (Cloud {
                droplets: final(self).droplets,
                col_stat: final(self).col_stat,
                rng: final(self).rng,
                last_spawn_time: final(self).last_spawn_time,
                ..*old(self)
            }),
            final(self).wf(),
            final(self).droplets@.len() == old(self).droplets@.len(),
            final(self).col_stat@.len() == old(self).col_stat@.len(),
            // Activations fit the time budget; a zero budget is a
            // complete no-op.
            spec_count_changed(old(self).droplets@, final(self).droplets@) <= spec_spawn_budget(
                *old(self),
                now,
            ),
            spec_spawn_budget(*old(self), now) == 0 ==> *final(self) == *old(self),
            // The spawn clock moves exactly when something was spawned.
            final(self).last_spawn_time == (if spec_count_changed(
                old(self).droplets@,
                final(self).droplets@,
            ) > 0 {
                now
            } else {
                old(self).last_spawn_time
            }),
            // When nothing stands in the way, something spawns, whatever
            // columns the generator draws.
            spec_spawn_guaranteed(*old(self), now) ==> spec_count_changed(
                old(self).droplets@,
                final(self).droplets@,
            ) >= 1,
            forall|i: int|
                0 <= i < old(self).droplets@.len() && old(self).droplets@[i].is_alive
                    ==> final(self).droplets@[i] == old(self).droplets@[i],
            forall|i: int|
                0 <= i < old(self).droplets@.len() && final(self).droplets@[i] != old(self).droplets@[i] ==> {
                    &&& !old(self).droplets@[i].is_alive
                    &&& !old(self).droplets@[i].holds_column
                    &&& (#[trigger] final(self).droplets@[i]).is_alive
                    &&& final(self).droplets@[i].holds_column
                    &&& final(self).droplets@[i].wf()
                    &&& (old(self).full_width ==> final(self).droplets@[i].bound_col % 2 == 0)
                },
            forall|c: int|
                0 <= c < old(self).col_stat@.len() ==> spec_col_spawn_step(
                    old(self).col_stat@[c],
                    #[trigger] final(self).col_stat@[c],
                    old(self).max_droplets_per_column,
                ),
            old(self).col_accounting() ==> final(self).col_accounting(),
    {
        let elapsed: u64 = crate::arith::sub_saturating(now, self.last_spawn_time);
        proof {
            crate::arith::lemma_u64_mul_fits_u128(elapsed, self.droplets_per_sec_milli);
        }
        let budget: u128 = (elapsed as u128) * (self.droplets_per_sec_milli as u128) / 1000000;
        let to_spawn: usize = if budget > (self.num_droplets as u128) {
            self.num_droplets
        } else {
            budget as usize
        };
        proof {
            assert(to_spawn as int == spec_spawn_budget(*old(self), now));
            lemma_count_changed_refl(self.droplets@);
        }
        if to_spawn == 0 {
            return;
        }
        let mut idx: usize = 0;
        let mut spawned: usize = 0;
        let mut attempt: usize = 0;
        while attempt < to_spawn
            invariant
                old(self).wf(),
                attempt <= to_spawn,
                to_spawn as int == spec_spawn_budget(*old(self), now),
                idx <= self.droplets@.len(),
                spawned <= attempt,
                spec_count_changed(old(self).droplets@, self.droplets@) == spawned as int,
                spawned == 0 ==> self.col_stat@ == old(self).col_stat@,
                forall|j: int|
                    0 <= j < idx as int ==> (#[trigger] self.droplets@[j]).is_alive
                        || self.droplets@[j].holds_column,
                spec_spawn_guaranteed(*old(self), now) && attempt >= 1 ==> spawned >= 1,
                *self == (Cloud {
                    droplets: self.droplets,
                    col_stat: self.col_stat,
                    rng: self.rng,
                    ..*old(self)
                }),
                self.droplets@.len() == old(self).droplets@.len(),
                self.col_stat@.len() == old(self).col_stat@.len(),
                forall|i: int|
                    0 <= i < self.droplets@.len() ==> (#[trigger] self.droplets@[i]).wf(),
                forall|i: int|
                    0 <= i < old(self).droplets@.len() && old(self).droplets@[i].is_alive
                        ==> self.droplets@[i] == old(self).droplets@[i],
                forall|i: int|
                    0 <= i < old(self).droplets@.len() && self.droplets@[i] != old(self).droplets@[i] ==> {
                        &&& !old(self).droplets@[i].is_alive
                        &&& !old(self).droplets@[i].holds_column
                        &&& (#[trigger] self.droplets@[i]).is_alive
                        &&& self.droplets@[i].holds_column
                        &&& self.droplets@[i].wf()
                        &&& (old(self).full_width ==> self.droplets@[i].bound_col % 2 == 0)
                    },
                forall|c: int|
                    0 <= c < old(self).col_stat@.len() ==> spec_col_spawn_step(
                        old(self).col_stat@[c],
                        #[trigger] self.col_stat@[c],
                        old(self).max_droplets_per_column,
                    ),
                old(self).col_accounting() ==> self.col_accounting(),
            ensures
                spec_spawn_guaranteed(*old(self), now) ==> spawned >= 1,
            decreases to_spawn - attempt,
        {
            attempt = attempt + 1;
            let ghost must_spawn = spec_spawn_guaranteed(*old(self), now) && spawned == 0;
            let hi_col: u16 = if self.cols >= 1 {
                self.cols - 1
            } else {
                0
            };
            let col0: u16 = sample_inclusive(&mut self.rng, 0, hi_col as u64) as u16;
            let col: u16 = if self.full_width {
                col0 & 0xFFFE
            } else {
                col0
            };
            proof {
                assert((col0 & 0xFFFEu16) % 2 == 0 && (col0 & 0xFFFEu16) <= col0) by (bit_vector);
            }
            if (col as usize) >= self.col_stat.len() {
                proof {
                    if must_spawn {
                        assert(false);
                    }
                }
                continue;
            }
            let cs = self.col_stat[col as usize];
            if !cs.can_spawn || cs.num_droplets >= self.max_droplets_per_column {
                proof {
                    if must_spawn {
                        assert(cs == old(self).col_stat@[col as int]);
                        assert(false);
                    }
                }
                continue;
            }
            while idx < self.droplets.len() && (self.droplets[idx].is_alive
                || self.droplets[idx].holds_column)
                invariant
                    idx <= self.droplets@.len(),
                    forall|j: int|
                        0 <= j < idx as int ==> (#[trigger] self.droplets@[j]).is_alive
                            || self.droplets@[j].holds_column,
                decreases self.droplets@.len() - idx,
            {
                idx = idx + 1;
            }
            if idx >= self.droplets.len() {
                proof {
                    if must_spawn {
                        let i0 = choose|i: int|
                            0 <= i < old(self).droplets@.len() && !(
                            #[trigger] old(self).droplets@[i]).is_alive && !old(self).droplets@[i].holds_column;
                        lemma_count_changed_zero(old(self).droplets@, self.droplets@);
                        assert(self.droplets@[i0] == old(self).droplets@[i0]);
                        assert(false);
                    }
                }
                break;
            }
            let di: usize = idx;
            let ghost pre_slot = self.droplets@[di as int];
            let ghost pre_ds = self.droplets@;
            let ghost pre_cs = self.col_stat@;
            let mut d = Droplet::new();
            self.fill_droplet(&mut d, col);
            d.activate(now);
            d.holds_column = true;
            self.droplets.set(di, d);
            let mut ncs = cs;
            ncs.can_spawn = false;
            ncs.num_droplets = ncs.num_droplets + 1;
            self.col_stat.set(col as usize, ncs);
            spawned = spawned + 1;
            proof {
                lemma_count_changed_update(old(self).droplets@, pre_ds, di as int, d);
                assert(pre_slot == old(self).droplets@[di as int]);
                assert(d != old(self).droplets@[di as int]);
                if old(self).col_accounting() {
                    assert forall|c: int|
                        0 <= c < self.col_stat@.len() implies (
                    #[trigger] self.col_stat@[c]).num_droplets as int == spec_count_col(
                        self.droplets@,
                        c,
                    ) by {
                        lemma_count_col_update(pre_ds, di as int, d, c);
                        assert(pre_cs[c].num_droplets as int == spec_count_col(pre_ds, c));
                        assert(!pre_slot.holds_column);
                    }
                }
            }
        }
        if spawned > 0 {
            self.last_spawn_time = now;
        }
        proof {
            lemma_count_changed_nonneg(old(self).droplets@, self.droplets@);
        }
    }
}

/// Glitch phase purity: on a glitch-eligible cell, the bright phase
/// yields bold and exactly one index above the baseline, the dim phase
/// plain and exactly one index below, and the two phases exclude each
/// other; location overrides are not applied here.
pub proof fn lemma_glitch_phase_purity(
    env: AttrEnv,
    line: u16,
    col: u16,
    val: char,
    now: u64,
    head_put_line: u16,
    length: u16,
)
    requires
        env.spec_is_glitched(line, col),
    ensures
        !(env.spec_is_bright(now) && env.spec_is_dim(now)),
        env.spec_is_bright(now) ==> env.spec_glitched_attr(line, col, val, now, head_put_line, length)
            == (env.spec_base_idx(line, col, head_put_line, length) + 1, true),
        env.spec_is_dim(now) ==> env.spec_glitched_attr(line, col, val, now, head_put_line, length)
            == (env.spec_base_idx(line, col, head_put_line, length) - 1, false),
{
}

/// The characters of a string, in order.
pub fn str_to_chars(s: &str) -> (r: Vec<char>)
    ensures
        r@ == s@,
{
    broadcast use vstd::string::axiom_spec_iter;

    let mut out: Vec<char> = Vec::new();
    let chars_it = s.chars();
    for c in it: chars_it
        invariant
            it.seq() == s@,
            out@ == it.seq().take(it.index()),
    {
        out.push(c);
        proof {
            assert(out@ =~= it.seq().take(it.index() + 1));
        }
    }
    proof {
        assert(out@ =~= s@);
    }
    out
}

/// The dimensional layout `reset(cols, lines)` leaves behind; the
/// contents of the maps and pools vary with the generator, the layout
/// does not.
pub open spec fn spec_reset_layout(c: Cloud, cols: u16, lines: u16) -> bool {
    &&& c.cols == cols && c.lines == lines
    &&& c.droplets@.len() == spec_pool_size(cols)
    &&& c.num_droplets == spec_pool_size(cols)
    &&& c.col_stat@.len() == cols as int
    &&& c.color_map@.len() == lines as int * cols as int
    &&& (c.glitchy ==> c.glitch_map@.len() == lines as int * cols as int)
    &&& (!c.glitchy ==> c.glitch_map@.len() == 0)
}

/// Idempotence of `reset`: two orchestrators reset to the same viewport
/// (with glitches equally enabled) have structurally identical layout —
/// the same pool size, column table and map dimensions — whatever their
/// generators drew.
pub proof fn lemma_reset_layout_deterministic(a: Cloud, b: Cloud, cols: u16, lines: u16)
    requires
        spec_reset_layout(a, cols, lines),
        spec_reset_layout(b, cols, lines),
        a.glitchy == b.glitchy,
    ensures
        a.droplets@.len() == b.droplets@.len(),
        a.num_droplets == b.num_droplets,
        a.col_stat@.len() == b.col_stat@.len(),
        a.color_map@.len() == b.color_map@.len(),
        a.glitch_map@.len() == b.glitch_map@.len(),
{
}

impl Cloud {
    /// Pause the simulation, or resume it: resuming shifts every live
    /// droplet's clock and the spawn clock by the paused duration, so
    /// physics resumes where it stopped instead of jumping.
    pub fn toggle_pause(&mut self, now: u64)
        requires
            old(self).wf(),
        ensures
            final(self).wf(),
            final(self).pause == !old(self).pause,
            !old(self).pause ==> *final(self) == (Cloud {
                pause: true,
                pause_time: Some(now),
                ..*old(self)
            }),
            old(self).pause ==> final(self).pause_time is None,
            old(self).col_accounting() ==> final(self).col_accounting(),
            old(self).pause && old(self).pause_time is Some ==> {
                let elapsed = crate::arith::sat_sub_u64(now, old(self).pause_time->0);
                &&& *final(self) == (Cloud {
                    pause: false,
                    pause_time: None,
                    last_spawn_time: crate::arith::sat_add_u64(
                        old(self).last_spawn_time,
                        elapsed,
                    ),
                    droplets: final(self).droplets,
                    ..*old(self)
                })
                &&& final(self).droplets@.len() == old(self).droplets@.len()
                &&& forall|i: int|
                    0 <= i < old(self).droplets@.len() ==> #[trigger] final(self).droplets@[i]
                        == (if old(self).droplets@[i].is_alive {
                        Droplet {
                            last_time: match old(self).droplets@[i].last_time {
                                Some(t) => Some(crate::arith::sat_add_u64(t, elapsed)),
                                None => None,
                            },
                            head_stop_time: match old(self).droplets@[i].head_stop_time {
                                Some(t) => Some(crate::arith::sat_add_u64(t, elapsed)),
                                None => None,
                            },
                            ..old(self).droplets@[i]
                        }
                    } else {
                        old(self).droplets@[i]
                    })
            },
    {
        if !self.pause {
            self.pause = true;
            self.pause_time = Some(now);
            return;
        }
        self.pause = false;
        let pt = self.pause_time;
        self.pause_time = None;
        match pt {
            Some(t) => {
                let elapsed: u64 = crate::arith::sub_saturating(now, t);
                self.last_spawn_time = crate::arith::add_saturating(
                    self.last_spawn_time,
                    elapsed,
                );
                let n: usize = self.droplets.len();
                let mut i: usize = 0;
                while i < n
                    invariant
                        i <= n,
                        old(self).wf(),
                        old(self).col_accounting() ==> self.col_accounting(),
                        old(self).pause_time == Some(t),
                        elapsed == crate::arith::sat_sub_u64(now, t),
                        self.droplets@.len() == n as int,
                        self.last_spawn_time == crate::arith::sat_add_u64(
                            old(self).last_spawn_time,
                            elapsed,
                        ),
                        *self == (Cloud {
                            pause: false,
                            pause_time: None,
                            last_spawn_time: self.last_spawn_time,
                            droplets: self.droplets,
                            ..*old(self)
                        }),
                        forall|j: int|
                            i as int <= j < n as int ==> #[trigger] self.droplets@[j] == old(self).droplets@[j],
                        forall|j: int|
                            0 <= j < i as int ==> #[trigger] self.droplets@[j] == (if old(self).droplets@[j].is_alive {
                                Droplet {
                                    last_time: match old(self).droplets@[j].last_time {
                                        Some(t) => Some(crate::arith::sat_add_u64(t, elapsed)),
                                        None => None,
                                    },
                                    head_stop_time: match old(self).droplets@[j].head_stop_time {
                                        Some(t) => Some(crate::arith::sat_add_u64(t, elapsed)),
                                        None => None,
                                    },
                                    ..old(self).droplets@[j]
                                }
                            } else {
                                old(self).droplets@[j]
                            }),
                    decreases n - i,
                {
                    let ghost ds_pre = self.droplets@;
                    let mut d = self.droplets[i];
                    if d.is_alive {
                        d.increment_time(elapsed);
                        self.droplets.set(i, d);
                        proof {
                            if old(self).col_accounting() {
                                assert forall|c: int|
                                    0 <= c < self.col_stat@.len() implies (
                                #[trigger] self.col_stat@[c]).num_droplets as int
                                    == spec_count_col(self.droplets@, c) by {
                                    lemma_count_col_update(ds_pre, i as int, d, c);
                                }
                            }
                        }
                    }
                    i = i + 1;
                }
                proof {
                    assert forall|i: int| 0 <= i < self.droplets@.len() implies (
                    #[trigger] self.droplets@[i]).wf() by {
                        assert(old(self).droplets@[i].wf());
                    }
                }
            },
            None => {},
        }
    }

    /// Rebuild everything that depends on the viewport: the droplet
    /// pool, the per-column table, the random maps and speeds, the
    /// message layout and the glitch schedule; the next pass redraws in
    /// full.
    pub fn reset(&mut self, cols: u16, lines: u16, now: u64)
        requires
            old(self).wf(),
        ensures
            final(self).wf(),
            spec_reset_layout(*final(self), cols, lines),
            forall|i: int|
                0 <= i < final(self).droplets@.len() ==> #[trigger] final(self).droplets@[i]
                    == Droplet::spec_new(),
            forall|c: int|
                0 <= c < final(self).col_stat@.len() ==> {
                    &&& (#[trigger] final(self).col_stat@[c]).num_droplets == 0
                    &&& final(self).col_stat@[c].can_spawn
                    &&& 1 <= final(self).col_stat@[c].max_speed_permille <= 1000
                },
            !old(self).async_mode ==> forall|c: int|
                0 <= c < final(self).col_stat@.len() ==> (#[trigger] final(self).col_stat@[c]).max_speed_permille == 1000,
            final(self).droplets_per_sec_milli == spec_dps_milli(
                cols,
                old(self).droplet_density_pm,
                old(self).chars_per_sec_milli,
                lines,
            ),
            final(self).last_glitch_time == now,
            sat_time(now, old(self).glitch_low_ms as u64) <= final(self).next_glitch_time
                <= sat_time(now, old(self).glitch_high_ms as u64),
            final(self).last_spawn_time == now,
            final(self).force_draw_all,
            final(self).col_accounting(),
            final(self).glitchy == old(self).glitchy,
            final(self).color_mode == old(self).color_mode,
            final(self).chars_per_sec_milli == old(self).chars_per_sec_milli,
            final(self).max_droplets_per_column == old(self).max_droplets_per_column,
            final(self).pause == old(self).pause,
            final(self).message@.len() == old(self).message@.len(),
    {
        self.cols = cols;
        self.lines = lines;
        let pool: usize = (3 * (cols as usize) + 1) / 2;
        self.num_droplets = pool;
        let mut ds: Vec<Droplet> = Vec::new();
        let mut i: usize = 0;
        while i < pool
            invariant
                i <= pool,
                ds@.len() == i as int,
                forall|j: int| 0 <= j < i as int ==> #[trigger] ds@[j] == Droplet::spec_new(),
            decreases pool - i,
        {
            ds.push(Droplet::new());
            i = i + 1;
        }
        self.droplets = ds;
        self.recalc_droplets_per_sec();
        let mut cs: Vec<ColumnStatus> = Vec::new();
        let mut c: usize = 0;
        while c < cols as usize
            invariant
                c <= cols as usize,
                cs@.len() == c as int,
                forall|j: int|
                    0 <= j < c as int ==> #[trigger] cs@[j] == (ColumnStatus {
                        max_speed_permille: 1000,
                        num_droplets: 0,
                        can_spawn: true,
                    }),
            decreases cols as int - c,
        {
            cs.push(ColumnStatus { max_speed_permille: 1000, num_droplets: 0, can_spawn: true });
            c = c + 1;
        }
        self.col_stat = cs;
        self.fill_glitch_map();
        self.fill_color_map();
        self.set_column_speeds();
        self.update_droplet_speeds();
        if self.message.len() > 0 {
            self.reset_message();
        }
        self.last_glitch_time = now;
        let window: u64 = sample_inclusive(
            &mut self.rng,
            self.glitch_low_ms as u64,
            self.glitch_high_ms as u64,
        );
        self.next_glitch_time = crate::arith::add_saturating(now, window);
        self.last_spawn_time = now;
        self.force_draw_all = true;
        proof {
            assert forall|c: int|
                0 <= c < self.col_stat@.len() implies (
            #[trigger] self.col_stat@[c]).num_droplets as int == spec_count_col(
                self.droplets@,
                c,
            ) by {
                lemma_count_col_zero(self.droplets@, c);
            }
        }
    }

    /// Replace the overlay message and lay it out for the current
    /// viewport; every character starts hidden.
    pub fn set_message(&mut self, msg: &str)
        ensures
            *final(self) == (Cloud { message: final(self).message, ..*old(self) }),
            final(self).message@.len() == msg@.len(),
            forall|i: int|
                0 <= i < final(self).message@.len() ==> {
                    &&& (#[trigger] final(self).message@[i]).val == msg@[i]
                    &&& !final(self).message@[i].draw
                },
            old(self).wf() ==> final(self).wf(),
    {
        let chars = str_to_chars(msg);
        let n: usize = chars.len();
        let mut msgs: Vec<MsgChr> = Vec::new();
        let mut i: usize = 0;
        while i < n
            invariant
                i <= n,
                n == chars@.len(),
                chars@ == msg@,
                msgs@.len() == i as int,
                forall|j: int|
                    0 <= j < i as int ==> (#[trigger] msgs@[j]).val == chars@[j]
                        && !msgs@[j].draw,
            decreases n - i,
        {
            let mc = MsgChr::new(chars[i]);
            msgs.push(mc);
            i = i + 1;
        }
        self.message = msgs;
        self.reset_message();
    }

    /// Lay the message out again: characters are centered over the
    /// middle half of the viewport and hidden; characters that fall
    /// outside the viewport park at an unreachable position.
    pub fn reset_message(&mut self)
        ensures
            *final(self) == (Cloud { message: final(self).message, ..*old(self) }),
            final(self).message@.len() == old(self).message@.len(),
            forall|i: int|
                0 <= i < final(self).message@.len() ==> #[trigger] final(self).message@[i]
                    == (MsgChr {
                    line: spec_msg_pos(
                        i,
                        old(self).cols,
                        old(self).lines,
                        old(self).message@.len() as int,
                    ).0,
                    col: spec_msg_pos(
                        i,
                        old(self).cols,
                        old(self).lines,
                        old(self).message@.len() as int,
                    ).1,
                    val: old(self).message@[i].val,
                    draw: false,
                }),
            forall|i: int|
                0 <= i < final(self).message@.len() ==> {
                    &&& (#[trigger] final(self).message@[i]).val == old(self).message@[i].val
                    &&& !final(self).message@[i].draw
                    &&& (final(self).message@[i].line < old(self).lines || final(self).message@[i].line == 0xffff)
                },
            old(self).wf() ==> final(self).wf(),
    {
        if self.message.len() == 0 {
            return;
        }
        let first_col: u16 = self.cols / 4;
        let last_col: u16 = ((3 * (self.cols as u32)) / 4) as u16;
        let chars_per_col: u32 = (last_col - first_col) as u32 + 1;
        let msg_len: u32 = if self.message.len() > 0xffff {
            0xffff
        } else {
            self.message.len() as u32
        };
        let msg_lines: u32 = msg_len / chars_per_col + 1;
        let half_lines: u32 = (self.lines / 2) as u32;
        let first_line: u32 = if half_lines >= msg_lines / 2 {
            half_lines - msg_lines / 2
        } else {
            0
        };
        let mut remaining: u32 = msg_len;
        let mut line: u32 = first_line;
        let mut col: u32 = first_col as u32;
        if remaining < chars_per_col {
            col = col + (chars_per_col - remaining) / 2;
        }
        let n: usize = self.message.len();
        let mut i: usize = 0;
        while i < n
            invariant
                i <= n,
                self.message@.len() == n as int,
                first_col == old(self).cols / 4,
                last_col == (3 * (old(self).cols as int)) / 4,
                first_col <= last_col <= 0xc000,
                chars_per_col == last_col - first_col + 1,
                first_col as int <= col as int <= last_col as int,
                (line as int, col as int, remaining as int) == spec_msg_state(
                    i as int,
                    old(self).cols,
                    old(self).lines,
                    old(self).message@.len() as int,
                ),
                *self == (Cloud { message: self.message, ..*old(self) }),
                forall|j: int|
                    i as int <= j < n as int ==> #[trigger] self.message@[j] == old(self).message@[j],
                forall|j: int|
                    0 <= j < i as int ==> #[trigger] self.message@[j] == (MsgChr {
                        line: spec_msg_pos(
                            j,
                            old(self).cols,
                            old(self).lines,
                            old(self).message@.len() as int,
                        ).0,
                        col: spec_msg_pos(
                            j,
                            old(self).cols,
                            old(self).lines,
                            old(self).message@.len() as int,
                        ).1,
                        val: old(self).message@[j].val,
                        draw: false,
                    }),
                forall|j: int|
                    0 <= j < i as int ==> {
                        &&& (#[trigger] self.message@[j]).val == old(self).message@[j].val
                        &&& !self.message@[j].draw
                        &&& (self.message@[j].line < self.lines || self.message@[j].line
                            == 0xffff)
                    },
            decreases n - i,
        {
            let mut mc = self.message[i];
            mc.draw = false;
            if line < self.lines as u32 {
                mc.line = line as u16;
                mc.col = if col <= 0xffff {
                    col as u16
                } else {
                    0xffff
                };
            } else {
                mc.line = 0xffff;
                mc.col = 0xffff;
            }
            self.message.set(i, mc);
            if col == last_col as u32 {
                line = if line < 0xffff_ffff {
                    line + 1
                } else {
                    line
                };
                col = first_col as u32;
                if remaining < chars_per_col {
                    col = col + (chars_per_col - remaining) / 2;
                }
            } else {
                col = col + 1;
            }
            remaining = if remaining > 0 {
                remaining - 1
            } else {
                0
            };
            i = i + 1;
        }
    }

    /// Reveal every message character whose target cell the rain has
    /// painted with a non-blank glyph — revelation is permanent and
    /// driven by the frame, not a timer; the scan stops at the first
    /// character without a laid-out target.
    pub fn calc_message(&mut self, frame: &Frame)
        requires
            frame.wf(),
        ensures
            *final(self) == (Cloud { message: final(self).message, ..*old(self) }),
            final(self).message@.len() == old(self).message@.len(),
            forall|i: int|
                0 <= i < final(self).message@.len() ==> #[trigger] final(self).message@[i] == (if i
                    < spec_msg_stop(old(self).message@) && spec_msg_visible(
                    old(self).message@[i],
                    *frame,
                ) {
                    MsgChr { draw: true, ..old(self).message@[i] }
                } else {
                    old(self).message@[i]
                }),
            forall|i: int|
                0 <= i < final(self).message@.len() ==> (#[trigger] final(self).message@[i]
                    == old(self).message@[i] || final(self).message@[i] == (MsgChr {
                    draw: true,
                    ..old(self).message@[i]
                })),
            old(self).wf() ==> final(self).wf(),
    {
        let n: usize = self.message.len();
        let mut i: usize = 0;
        while i < n
            invariant
                i <= n,
                frame.wf(),
                self.message@.len() == n as int,
                *self == (Cloud { message: self.message, ..*old(self) }),
                forall|j: int|
                    i as int <= j < n as int ==> #[trigger] self.message@[j] == old(self).message@[j],
                forall|j: int|
                    0 <= j < i as int ==> !((#[trigger] old(self).message@[j]).line == 0xffff
                        || old(self).message@[j].col == 0xffff),
                forall|j: int|
                    0 <= j < i as int ==> #[trigger] self.message@[j] == (if spec_msg_visible(
                        old(self).message@[j],
                        *frame,
                    ) {
                        MsgChr { draw: true, ..old(self).message@[j] }
                    } else {
                        old(self).message@[j]
                    }),
            ensures
                i <= n,
                self.message@.len() == n as int,
                *self == (Cloud { message: self.message, ..*old(self) }),
                forall|j: int|
                    i as int <= j < n as int ==> #[trigger] self.message@[j] == old(self).message@[j],
                forall|j: int|
                    0 <= j < i as int ==> !((#[trigger] old(self).message@[j]).line == 0xffff
                        || old(self).message@[j].col == 0xffff),
                forall|j: int|
                    0 <= j < i as int ==> #[trigger] self.message@[j] == (if spec_msg_visible(
                        old(self).message@[j],
                        *frame,
                    ) {
                        MsgChr { draw: true, ..old(self).message@[j] }
                    } else {
                        old(self).message@[j]
                    }),
                i < n ==> (old(self).message@[i as int].line == 0xffff
                    || old(self).message@[i as int].col == 0xffff),
            decreases n - i,
        {
            let mc = self.message[i];
            if mc.line == 0xffff || mc.col == 0xffff {
                break;
            }
            match frame.get(mc.col, mc.line) {
                Some(cell) => {
                    if cell.ch != ' ' {
                        let mut nm = mc;
                        nm.draw = true;
                        self.message.set(i, nm);
                    }
                },
                None => {},
            }
            proof {
                assert(self.message@[i as int] == (if spec_msg_visible(
                    old(self).message@[i as int],
                    *frame,
                ) {
                    MsgChr { draw: true, ..old(self).message@[i as int] }
                } else {
                    old(self).message@[i as int]
                }));
            }
            i = i + 1;
        }
        proof {
            if i < n {
                lemma_msg_stop_at(old(self).message@, i as int);
            } else {
                lemma_msg_stop_all(old(self).message@);
            }
        }
    }

    /// Write the revealed message characters over the frame, in the
    /// palette's brightest color (none in monochrome) and the configured
    /// boldness.
    pub fn draw_message(&self, frame: &mut Frame)
        requires
            old(frame).wf(),
            self.wf(),
        ensures
            final(frame).wf(),
            final(frame).width == old(frame).width,
            final(frame).height == old(frame).height,
            // Exactly the revealed, laid-out, in-viewport characters are
            // painted, in message order.
            final(frame).cells@ == spec_draw_message_cells(
                self.message@,
                self.message@.len() as int,
                self.color_mode == ColorMode::Mono,
                self.palette.colors@,
                self.palette.bg,
                self.bold_mode != BoldMode::Off,
                old(frame).width,
                old(frame).height,
                old(frame).cells@,
            ),
            forall|x: u16, y: u16|
                x < old(frame).width && y < old(frame).height ==> (#[trigger] final(frame).spec_at(x as int, y as int) == old(frame).spec_at(x as int, y as int) || {
                    let cell = final(frame).spec_at(x as int, y as int);
                    &&& cell.bg == self.palette.bg
                    &&& (self.color_mode == ColorMode::Mono ==> cell.fg is None)
                    &&& (self.color_mode != ColorMode::Mono ==> cell.fg == Some(
                        self.palette.colors@.last(),
                    ))
                    &&& cell.bold == (self.bold_mode != BoldMode::Off)
                }),
    {
        let bg = self.palette.bg;
        let n: usize = self.message.len();
        let mut i: usize = 0;
        while i < n
            invariant
                i <= n,
                frame.wf(),
                frame.width == old(frame).width,
                frame.height == old(frame).height,
                self.wf(),
                self.message@.len() == n as int,
                bg == self.palette.bg,
                frame.cells@ == spec_draw_message_cells(
                    self.message@,
                    i as int,
                    self.color_mode == ColorMode::Mono,
                    self.palette.colors@,
                    self.palette.bg,
                    self.bold_mode != BoldMode::Off,
                    old(frame).width,
                    old(frame).height,
                    old(frame).cells@,
                ),
                forall|x: u16, y: u16|
                    x < old(frame).width && y < old(frame).height ==> (#[trigger] frame.spec_at(
                        x as int,
                        y as int,
                    ) == old(frame).spec_at(x as int, y as int) || {
                        let cell = frame.spec_at(x as int, y as int);
                        &&& cell.bg == self.palette.bg
                        &&& (self.color_mode == ColorMode::Mono ==> cell.fg is None)
                        &&& (self.color_mode != ColorMode::Mono ==> cell.fg == Some(
                            self.palette.colors@.last(),
                        ))
                        &&& cell.bold == (self.bold_mode != BoldMode::Off)
                    }),
            decreases n - i,
        {
            let mc = self.message[i];
            let ghost cells_pre = frame.cells@;
            if mc.draw && !(mc.line == 0xffff || mc.col == 0xffff) {
                let fg: Option<TermColor> = if self.color_mode == ColorMode::Mono {
                    None
                } else {
                    Some(self.palette.colors[self.palette.colors.len() - 1])
                };
                let cell = Cell::make(mc.val, fg, bg, self.bold_mode != BoldMode::Off);
                frame.set(mc.col, mc.line, cell);
                proof {
                    assert(cell == spec_msg_cell(
                        mc,
                        self.color_mode == ColorMode::Mono,
                        self.palette.colors@,
                        self.palette.bg,
                        self.bold_mode != BoldMode::Off,
                    ));
                    if mc.col < old(frame).width && mc.line < old(frame).height {
                        assert(frame.cells@ == cells_pre.update(
                            mc.line as int * old(frame).width as int + mc.col as int,
                            cell,
                        ));
                    } else {
                        assert(frame.cells@ == cells_pre);
                    }
                }
            }
            i = i + 1;
        }
    }

    /// Update pass of one tick: every live droplet takes exactly one
    /// `spec_advance` step, a column whose droplet signalled free has
    /// its spawn gate opened (gates only ever open here), and, when a
    /// glitch window is due, the glyph pools take exactly the
    /// substitutions `spec_update_pools` describes. Dormant droplets and
    /// column bookkeeping other than the spawn gates stay untouched.
    #[verifier::rlimit(100)]
    pub fn rain_update_pass(&mut self, now: u64, time_for_glitch: bool)
        requires
            old(self).wf(),
        ensures
            final(self).wf(),
            *final(self) == (Cloud {
                droplets: final(self).droplets,
                col_stat: final(self).col_stat,
                char_pool: final(self).char_pool,
                glitch_pool_idx: final(self).glitch_pool_idx,
                ..*old(self)
            }),
            final(self).droplets@.len() == old(self).droplets@.len(),
            final(self).col_stat@.len() == old(self).col_stat@.len(),
            // Every live droplet advances by exactly one step; the rest
            // are untouched.
            forall|j: int|
                0 <= j < final(self).droplets@.len() ==> #[trigger] final(self).droplets@[j]
                    == (if old(self).droplets@[j].is_alive {
                    old(self).droplets@[j].spec_advance(now, old(self).lines).0
                } else {
                    old(self).droplets@[j]
                }),
            // Spawn gates only open here, and they do open for a column
            // whose droplet signalled free.
            forall|c: int|
                0 <= c < old(self).col_stat@.len() && old(self).col_stat@[c].can_spawn
                    ==> (#[trigger] final(self).col_stat@[c]).can_spawn,
            forall|j: int|
                0 <= j < old(self).droplets@.len() && old(self).droplets@[j].is_alive
                    && (#[trigger] old(self).droplets@[j].spec_advance(now, old(self).lines)).1
                    && (old(self).droplets@[j].spec_advance(now, old(self).lines).0.bound_col
                    as int) < old(self).col_stat@.len() ==> final(self).col_stat@[old(self).droplets@[j].spec_advance(now, old(self).lines).0.bound_col as int].can_spawn,
            // The glyph pools take exactly the due substitutions.
            (final(self).char_pool@, final(self).glitch_pool_idx as int) == spec_update_pools(
                old(self).droplets@,
                old(self).droplets@.len() as int,
                now,
                old(self).lines,
                time_for_glitch,
                old(self).glitchy,
                old(self).glitch_map@,
                old(self).glitch_pool@,
                old(self).char_pool@,
                old(self).glitch_pool_idx as int,
            ),
            forall|j: int|
                0 <= j < final(self).droplets@.len() ==> (#[trigger] final(self).droplets@[j]).holds_column == old(self).droplets@[j].holds_column,
            forall|j: int|
                0 <= j < final(self).droplets@.len() && !old(self).droplets@[j].is_alive
                    ==> #[trigger] final(self).droplets@[j] == old(self).droplets@[j],
            forall|c: int|
                0 <= c < old(self).col_stat@.len() ==> #[trigger] final(self).col_stat@[c]
                    == (ColumnStatus {
                    can_spawn: final(self).col_stat@[c].can_spawn,
                    ..old(self).col_stat@[c]
                }),
            old(self).col_accounting() ==> final(self).col_accounting(),
    {
        let n: usize = self.droplets.len();
        let mut i: usize = 0;
        while i < n
            invariant
                i <= n,
                old(self).wf(),
                self.droplets@.len() == n as int,
                n as int == old(self).droplets@.len(),
                self.col_stat@.len() == old(self).col_stat@.len(),
                *self == (Cloud {
                    droplets: self.droplets,
                    col_stat: self.col_stat,
                    char_pool: self.char_pool,
                    glitch_pool_idx: self.glitch_pool_idx,
                    ..*old(self)
                }),
                forall|j: int| 0 <= j < n as int ==> (#[trigger] self.droplets@[j]).wf(),
                forall|j: int|
                    i as int <= j < n as int ==> #[trigger] self.droplets@[j] == old(self).droplets@[j],
                forall|j: int|
                    0 <= j < i as int ==> #[trigger] self.droplets@[j] == (if old(self).droplets@[j].is_alive {
                        old(self).droplets@[j].spec_advance(now, old(self).lines).0
                    } else {
                        old(self).droplets@[j]
                    }),
                forall|c: int|
                    0 <= c < old(self).col_stat@.len() && old(self).col_stat@[c].can_spawn
                        ==> (#[trigger] self.col_stat@[c]).can_spawn,
                forall|j: int|
                    0 <= j < i as int && old(self).droplets@[j].is_alive && (
                    #[trigger] old(self).droplets@[j].spec_advance(now, old(self).lines)).1 && (old(self).droplets@[j].spec_advance(now, old(self).lines).0.bound_col as int) < old(self).col_stat@.len() ==> self.col_stat@[old(self).droplets@[j].spec_advance(
                        now,
                        old(self).lines,
                    ).0.bound_col as int].can_spawn,
                (self.char_pool@, self.glitch_pool_idx as int) == spec_update_pools(
                    old(self).droplets@,
                    i as int,
                    now,
                    old(self).lines,
                    time_for_glitch,
                    old(self).glitchy,
                    old(self).glitch_map@,
                    old(self).glitch_pool@,
                    old(self).char_pool@,
                    old(self).glitch_pool_idx as int,
                ),
                forall|j: int|
                    0 <= j < n as int ==> (#[trigger] self.droplets@[j]).holds_column == old(self).droplets@[j].holds_column,
                forall|j: int|
                    0 <= j < n as int && !old(self).droplets@[j].is_alive
                        ==> #[trigger] self.droplets@[j] == old(self).droplets@[j],
                forall|c: int|
                    0 <= c < old(self).col_stat@.len() ==> #[trigger] self.col_stat@[c]
                        == (ColumnStatus {
                        can_spawn: self.col_stat@[c].can_spawn,
                        ..old(self).col_stat@[c]
                    }),
                old(self).col_accounting() ==> self.col_accounting(),
            decreases n - i,
        {
            let ghost ds_pre = self.droplets@;
            let ghost pools_pre = (self.char_pool@, self.glitch_pool_idx as int);
            self.rain_update_slot(now, time_for_glitch, i);
            proof {
                assert(ds_pre[i as int] == old(self).droplets@[i as int]);
                assert((self.char_pool@, self.glitch_pool_idx as int) == spec_update_pools(
                    old(self).droplets@,
                    i + 1,
                    now,
                    old(self).lines,
                    time_for_glitch,
                    old(self).glitchy,
                    old(self).glitch_map@,
                    old(self).glitch_pool@,
                    old(self).char_pool@,
                    old(self).glitch_pool_idx as int,
                ));
            }
            i = i + 1;
        }
    }

    /// One slot of the update pass: a live droplet takes one step, may
    /// open its column's spawn gate, and, when a glitch window is due,
    /// has its advanced span substituted in the glyph pools.
    #[verifier::rlimit(100)]
    fn rain_update_slot(&mut self, now: u64, time_for_glitch: bool, i: usize)
        requires
            old(self).wf(),
            i < old(self).droplets@.len(),
        ensures
            final(self).wf(),
            *final(self) == (Cloud {
                droplets: final(self).droplets,
                col_stat: final(self).col_stat,
                char_pool: final(self).char_pool,
                glitch_pool_idx: final(self).glitch_pool_idx,
                ..*old(self)
            }),
            final(self).droplets@.len() == old(self).droplets@.len(),
            final(self).col_stat@.len() == old(self).col_stat@.len(),
            forall|j: int|
                0 <= j < old(self).droplets@.len() && j != i as int
                    ==> #[trigger] final(self).droplets@[j] == old(self).droplets@[j],
            final(self).droplets@[i as int] == (if old(self).droplets@[i as int].is_alive {
                old(self).droplets@[i as int].spec_advance(now, old(self).lines).0
            } else {
                old(self).droplets@[i as int]
            }),
            forall|c: int|
                0 <= c < old(self).col_stat@.len() ==> #[trigger] final(self).col_stat@[c]
                    == (ColumnStatus {
                    can_spawn: final(self).col_stat@[c].can_spawn,
                    ..old(self).col_stat@[c]
                }),
            forall|c: int|
                0 <= c < old(self).col_stat@.len() && old(self).col_stat@[c].can_spawn
                    ==> (#[trigger] final(self).col_stat@[c]).can_spawn,
            old(self).droplets@[i as int].is_alive && old(self).droplets@[i as int].spec_advance(
                now,
                old(self).lines,
            ).1 && (old(self).droplets@[i as int].spec_advance(now, old(self).lines).0.bound_col
                as int) < old(self).col_stat@.len() ==> final(self).col_stat@[old(self).droplets@[i as int].spec_advance(now, old(self).lines).0.bound_col as int].can_spawn,
            (final(self).char_pool@, final(self).glitch_pool_idx as int) == (if old(self).droplets@[i as int].is_alive && time_for_glitch {
                ({
                    let nd = old(self).droplets@[i as int].spec_advance(now, old(self).lines).0;
                    spec_glitch_span(
                        old(self).char_pool@,
                        old(self).glitch_pool@,
                        old(self).glitch_pool_idx as int,
                        old(self).glitchy,
                        old(self).glitch_map@,
                        old(self).lines,
                        spec_span_start(nd),
                        nd.head_put_line,
                        nd.bound_col,
                        nd.char_pool_idx,
                    )
                })
            } else {
                (old(self).char_pool@, old(self).glitch_pool_idx as int)
            }),
            forall|j: int|
                0 <= j < old(self).droplets@.len() ==> (#[trigger] final(self).droplets@[j]).holds_column == old(self).droplets@[j].holds_column,
            old(self).col_accounting() ==> final(self).col_accounting(),
    {
        let d0 = self.droplets[i];
        if d0.is_alive {
            let ghost d_pre = self.droplets@;
            let ghost cs_pre = self.col_stat@;
            let mut d = d0;
            let freed = d.advance(now, self.lines);
            self.droplets.set(i, d);
            proof {
                assert forall|j: int|
                    0 <= j < self.droplets@.len() implies (
                #[trigger] self.droplets@[j]).wf() by {
                    assert(self.droplets@ == d_pre.update(i as int, d));
                    if j != i as int {
                        assert(d_pre[j].wf());
                    }
                }
                assert(self.wf());
                if old(self).col_accounting() {
                    assert forall|c: int|
                        0 <= c < self.col_stat@.len() implies (
                    #[trigger] self.col_stat@[c]).num_droplets as int == spec_count_col(
                        self.droplets@,
                        c,
                    ) by {
                        lemma_count_col_update(d_pre, i as int, self.droplets@[i as int], c);
                        assert(cs_pre[c].num_droplets as int == spec_count_col(d_pre, c));
                    }
                }
            }
            let col = d.bound_col;
            let start_line: u16 = match d.tail_put_line {
                Some(v) => {
                    if v < 0xffff {
                        v + 1
                    } else {
                        0xffff
                    }
                },
                None => 0,
            };
            proof {
                assert((d, freed) == old(self).droplets@[i as int].spec_advance(
                    now,
                    old(self).lines,
                ));
                assert(start_line as int == spec_span_start(d));
            }
            if freed {
                self.set_column_spawn(col, true);
            }
            if time_for_glitch {
                self.do_glitch_span(start_line, d.head_put_line, col, d.char_pool_idx);
            }
        }
    }

    /// Draw pass of one tick: every live or still-holding droplet paints
    /// its column into `frame` in pool order, exactly as
    /// `spec_draw_pass_cells` folds it; each drawn droplet records its
    /// drawn positions, and one that died this tick then releases its
    /// column slot, decrementing the column's count and re-enabling
    /// spawning there when its tail ended in the top quarter. Column
    /// counts never grow, and in monochrome mode every cell the pass
    /// touches is left without a foreground color.
    #[verifier::rlimit(100)]
    pub fn rain_draw_pass(&mut self, frame: &mut Frame, now: u64)
        requires
            old(self).wf(),
            old(frame).wf(),
        ensures
            final(self).wf(),
            final(frame).wf(),
            final(frame).width == old(frame).width,
            final(frame).height == old(frame).height,
            *final(self) == (Cloud {
                droplets: final(self).droplets,
                col_stat: final(self).col_stat,
                ..*old(self)
            }),
            final(self).droplets@.len() == old(self).droplets@.len(),
            final(self).col_stat@.len() == old(self).col_stat@.len(),
            // Each slot takes exactly its drawn-and-released form.
            forall|j: int|
                0 <= j < old(self).droplets@.len() ==> #[trigger] final(self).droplets@[j]
                    == spec_pass_droplet(old(self).droplets@[j]),
            // The column table takes exactly the releases of this pass.
            final(self).col_stat@ == spec_release_cols(
                old(self).droplets@,
                old(self).droplets@.len() as int,
                old(self).lines,
                old(self).col_stat@,
            ),
            // The frame takes exactly the fold of the droplets' draws.
            final(frame).cells@ == spec_draw_pass_cells(
                old(self).droplets@,
                old(self).droplets@.len() as int,
                old(self).env(),
                now,
                old(self).force_draw_all,
                old(frame).width,
                old(frame).height,
                old(frame).cells@,
            ),
            forall|c: int|
                0 <= c < old(self).col_stat@.len() ==> {
                    &&& (#[trigger] final(self).col_stat@[c]).num_droplets <= old(self).col_stat@[c].num_droplets
                    &&& final(self).col_stat@[c].max_speed_permille == old(self).col_stat@[c].max_speed_permille
                },
            old(self).col_accounting() ==> final(self).col_accounting(),
            old(self).color_mode == ColorMode::Mono ==> forall|x: u16, y: u16|
                x < old(frame).width && y < old(frame).height ==> (#[trigger] final(frame).spec_at(x as int, y as int) == old(frame).spec_at(x as int, y as int) || final(frame).spec_at(x as int, y as int).fg is None),
    {
        let draw_all = self.force_draw_all;
        let ctx = self.make_ctx();
        let n: usize = self.droplets.len();
        let mut k: usize = 0;
        while k < n
            invariant
                k <= n,
                old(self).wf(),
                self.wf(),
                self.env() == old(self).env(),
                ctx.wf(),
                ctx.env() == old(self).env(),
                frame.wf(),
                frame.width == old(frame).width,
                frame.height == old(frame).height,
                self.droplets@.len() == n as int,
                self.col_stat@.len() == old(self).col_stat@.len(),
                *self == (Cloud {
                    droplets: self.droplets,
                    col_stat: self.col_stat,
                    ..*old(self)
                }),
                forall|j: int| 0 <= j < n as int ==> (#[trigger] self.droplets@[j]).wf(),
                forall|j: int|
                    k as int <= j < n as int ==> #[trigger] self.droplets@[j] == old(self).droplets@[j],
                forall|j: int|
                    0 <= j < k as int ==> #[trigger] self.droplets@[j] == spec_pass_droplet(
                        old(self).droplets@[j],
                    ),
                self.col_stat@ == spec_release_cols(
                    old(self).droplets@,
                    k as int,
                    old(self).lines,
                    old(self).col_stat@,
                ),
                frame.cells@ == spec_draw_pass_cells(
                    old(self).droplets@,
                    k as int,
                    old(self).env(),
                    now,
                    old(self).force_draw_all,
                    old(frame).width,
                    old(frame).height,
                    old(frame).cells@,
                ),
                draw_all == old(self).force_draw_all,
                forall|c: int|
                    0 <= c < old(self).col_stat@.len() ==> {
                        &&& (#[trigger] self.col_stat@[c]).num_droplets <= old(self).col_stat@[c].num_droplets
                        &&& self.col_stat@[c].max_speed_permille == old(self).col_stat@[c].max_speed_permille
                    },
                old(self).col_accounting() ==> self.col_accounting(),
                old(self).color_mode == ColorMode::Mono ==> forall|x: u16, y: u16|
                    x < old(frame).width && y < old(frame).height ==> (#[trigger] frame.spec_at(
                        x as int,
                        y as int,
                    ) == old(frame).spec_at(x as int, y as int) || frame.spec_at(
                        x as int,
                        y as int,
                    ).fg is None),
            decreases n - k,
        {
            let ghost ds_pre = self.droplets@;
            let ghost cs_pre = self.col_stat@;
            let ghost cells_pre = frame.cells@;
            self.rain_draw_slot(frame, now, draw_all, k, &ctx);
            proof {
                assert(self.col_stat@ == spec_release_cols(
                    old(self).droplets@,
                    k + 1,
                    old(self).lines,
                    old(self).col_stat@,
                )) by {
                    assert(ds_pre[k as int] == old(self).droplets@[k as int]);
                    assert(self.col_stat@ == spec_release_one(
                        old(self).droplets@[k as int],
                        old(self).lines,
                        cs_pre,
                    ));
                }
                assert(frame.cells@ == spec_draw_pass_cells(
                    old(self).droplets@,
                    k + 1,
                    old(self).env(),
                    now,
                    old(self).force_draw_all,
                    old(frame).width,
                    old(frame).height,
                    old(frame).cells@,
                )) by {
                    assert(frame.cells@ == spec_slot_cells(
                        old(self).droplets@[k as int],
                        old(self).env(),
                        now,
                        draw_all,
                        old(frame).width,
                        old(frame).height,
                        cells_pre,
                    ));
                }
            }
            k = k + 1;
        }
    }

    /// One slot of the draw pass: draw the droplet when it is live or
    /// still holds its column, record its drawn positions, and release
    /// its column when it died.
    #[verifier::rlimit(100)]
    fn rain_draw_slot(&mut self, frame: &mut Frame, now: u64, draw_all: bool, k: usize, ctx: &DrawCtx)
        requires
            old(self).wf(),
            old(frame).wf(),
            k < old(self).droplets@.len(),
            ctx.wf(),
            ctx.env() == old(self).env(),
        ensures
            final(self).wf(),
            final(frame).wf(),
            final(frame).width == old(frame).width,
            final(frame).height == old(frame).height,
            *final(self) == (Cloud {
                droplets: final(self).droplets,
                col_stat: final(self).col_stat,
                ..*old(self)
            }),
            final(self).droplets@.len() == old(self).droplets@.len(),
            forall|j: int|
                0 <= j < old(self).droplets@.len() && j != k as int
                    ==> #[trigger] final(self).droplets@[j] == old(self).droplets@[j],
            final(self).droplets@[k as int] == spec_pass_droplet(old(self).droplets@[k as int]),
            final(self).col_stat@ == spec_release_one(
                old(self).droplets@[k as int],
                old(self).lines,
                old(self).col_stat@,
            ),
            final(frame).cells@ == spec_slot_cells(
                old(self).droplets@[k as int],
                old(self).env(),
                now,
                draw_all,
                old(frame).width,
                old(frame).height,
                old(frame).cells@,
            ),
            forall|c: int|
                0 <= c < old(self).col_stat@.len() ==> {
                    &&& (#[trigger] final(self).col_stat@[c]).num_droplets <= old(self).col_stat@[c].num_droplets
                    &&& final(self).col_stat@[c].max_speed_permille == old(self).col_stat@[c].max_speed_permille
                },
            old(self).col_accounting() ==> final(self).col_accounting(),
            old(self).color_mode == ColorMode::Mono ==> forall|x: u16, y: u16|
                x < old(frame).width && y < old(frame).height ==> (#[trigger] final(frame).spec_at(
                    x as int,
                    y as int,
                ) == old(frame).spec_at(x as int, y as int) || final(frame).spec_at(
                    x as int,
                    y as int,
                ).fg is None),
    {
        let d0 = self.droplets[k];
        if d0.is_alive || d0.holds_column {
            let ghost f_pre = *frame;
            let ghost ds_pre = self.droplets@;
            let ghost cs_pre = self.col_stat@;
            let mut d = d0;
            d.draw(&ctx, frame, now, draw_all);
            proof {
                lemma_draw_to_cells(d0, old(self).env(), now, draw_all, f_pre, *frame);
                if old(self).color_mode == ColorMode::Mono {
                    assert forall|x: u16, y: u16|
                        x < old(frame).width && y < old(frame).height implies (
                    #[trigger] frame.spec_at(x as int, y as int) == old(frame).spec_at(
                        x as int,
                        y as int,
                    ) || frame.spec_at(x as int, y as int).fg is None) by {
                        assert(f_pre.spec_at(x as int, y as int) == old(frame).spec_at(
                            x as int,
                            y as int,
                        ) || f_pre.spec_at(x as int, y as int).fg is None);
                    }
                }
            }
            if !d.is_alive && d.holds_column {
                d.holds_column = false;
                let col = d.bound_col;
                if (col as usize) < self.col_stat.len() {
                    let mut cs = self.col_stat[col as usize];
                    proof {
                        if old(self).col_accounting() {
                            lemma_count_col_positive(ds_pre, k as int, col as int);
                        }
                    }
                    cs.num_droplets = if cs.num_droplets > 0 {
                        cs.num_droplets - 1
                    } else {
                        0
                    };
                    let tail: u16 = match d.tail_put_line {
                        Some(v) => v,
                        None => 0,
                    };
                    if tail <= self.lines / 4 {
                        cs.can_spawn = true;
                    }
                    self.col_stat.set(col as usize, cs);
                }
            }
            self.droplets.set(k, d);
            proof {
                assert(d == spec_pass_droplet(old(self).droplets@[k as int]));
                if old(self).col_accounting() {
                    assert forall|c: int|
                        0 <= c < self.col_stat@.len() implies (
                    #[trigger] self.col_stat@[c]).num_droplets as int == spec_count_col(
                        self.droplets@,
                        c,
                    ) by {
                        lemma_count_col_update(ds_pre, k as int, self.droplets@[k as int], c);
                        assert(cs_pre[c].num_droplets as int == spec_count_col(ds_pre, c));
                        if !self.droplets@[k as int].holds_column && ds_pre[k as int].holds_column {
                            lemma_count_col_positive(
                                ds_pre,
                                k as int,
                                ds_pre[k as int].bound_col as int,
                            );
                        }
                    }
                }
            }
        }
    }

    /// One simulation tick at `now`: spawn due droplets, advance every
    /// live droplet, substitute glitch glyphs when a window ends, draw
    /// every live droplet into `frame` (deactivated droplets get a final
    /// draw, release their column slot, and may re-enable spawning),
    /// overlay the message, and reschedule the glitch window. A paused
    /// orchestrator does nothing. In monochrome mode every cell the pass
    /// touches is left without a foreground color.
    #[verifier::rlimit(100)]
    pub fn rain(&mut self, frame: &mut Frame, now: u64)
        requires
            old(self).wf(),
            old(frame).wf(),
        ensures
            final(self).wf(),
            final(frame).wf(),
            final(frame).width == old(frame).width,
            final(frame).height == old(frame).height,
            old(self).pause ==> *final(self) == *old(self) && *final(frame) == *old(frame),
            *final(self) == (Cloud {
                droplets: final(self).droplets,
                col_stat: final(self).col_stat,
                rng: final(self).rng,
                char_pool: final(self).char_pool,
                glitch_pool_idx: final(self).glitch_pool_idx,
                last_glitch_time: final(self).last_glitch_time,
                next_glitch_time: final(self).next_glitch_time,
                last_spawn_time: final(self).last_spawn_time,
                force_draw_all: final(self).force_draw_all,
                message: final(self).message,
                ..*old(self)
            }),
            final(self).droplets@.len() == old(self).droplets@.len(),
            final(self).col_stat@.len() == old(self).col_stat@.len(),
            !old(self).pause ==> !final(self).force_draw_all,
            // Every droplet alive before the tick advances one step and
            // is then drawn and, if it died, released.
            !old(self).pause ==> forall|i: int|
                0 <= i < old(self).droplets@.len() && old(self).droplets@[i].is_alive
                    ==> #[trigger] final(self).droplets@[i] == spec_rain_droplet(
                    old(self).droplets@[i],
                    now,
                    old(self).lines,
                ),
            // The whole tick decomposes as `spec_rain_tick` says: spawn,
            // advance, draw, reveal and overlay the message, release.
            !old(self).pause ==> spec_rain_tick(
                *old(self),
                *final(self),
                *old(frame),
                *final(frame),
                now,
            ),
            // A due glitch window is rescheduled to a fresh one starting
            // now; otherwise the window is untouched.
            !old(self).pause && old(self).glitchy && now >= old(self).next_glitch_time ==> {
                &&& final(self).last_glitch_time == now
                &&& sat_time(now, old(self).glitch_low_ms as u64) <= final(self).next_glitch_time
                    <= sat_time(now, old(self).glitch_high_ms as u64)
            },
            !old(self).pause && !(old(self).glitchy && now >= old(self).next_glitch_time) ==> {
                &&& final(self).last_glitch_time == old(self).last_glitch_time
                &&& final(self).next_glitch_time == old(self).next_glitch_time
            },
            // Faithful column bookkeeping survives a whole tick.
            old(self).col_accounting() ==> final(self).col_accounting(),
            // Column caps are preserved: a pass never pushes a column
            // over the configured maximum.
            (forall|c: int|
                0 <= c < old(self).col_stat@.len()
                    ==> (#[trigger] old(self).col_stat@[c]).num_droplets
                    <= old(self).max_droplets_per_column) ==> (forall|c: int|
                0 <= c < final(self).col_stat@.len()
                    ==> (#[trigger] final(self).col_stat@[c]).num_droplets
                    <= old(self).max_droplets_per_column),
            // Monochrome purity: any cell the pass touched has no
            // foreground color.
            old(self).color_mode == ColorMode::Mono ==> forall|x: u16, y: u16|
                x < old(frame).width && y < old(frame).height ==> (#[trigger] final(frame).spec_at(
                    x as int,
                    y as int,
                ) == old(frame).spec_at(x as int, y as int) || final(frame).spec_at(
                    x as int,
                    y as int,
                ).fg is None),
    {
        if self.pause {
            return;
        }
        self.spawn_droplets(now);
        let ghost s_spawn = *self;
        if self.force_draw_all {
            frame.clear();
        }
        let ghost f1 = *frame;
        let time_for_glitch = self.time_for_glitch(now);
        self.rain_update_pass(now, time_for_glitch);
        let ghost s_upd = *self;
        self.rain_draw_pass(frame, now);
        proof {
            if forall|c: int|
                0 <= c < old(self).col_stat@.len()
                    ==> (#[trigger] old(self).col_stat@[c]).num_droplets
                    <= old(self).max_droplets_per_column {
                assert forall|c: int|
                    0 <= c < self.col_stat@.len() implies (
                #[trigger] self.col_stat@[c]).num_droplets
                    <= old(self).max_droplets_per_column by {
                    assert(spec_col_spawn_step(
                        old(self).col_stat@[c],
                        s_spawn.col_stat@[c],
                        old(self).max_droplets_per_column,
                    ));
                    assert(s_upd.col_stat@[c] == (ColumnStatus {
                        can_spawn: s_upd.col_stat@[c].can_spawn,
                        ..s_spawn.col_stat@[c]
                    }));
                    assert(self.col_stat@[c].num_droplets <= s_upd.col_stat@[c].num_droplets);
                }
            }
            if old(self).color_mode == ColorMode::Mono {
                assert forall|x: u16, y: u16|
                    x < old(frame).width && y < old(frame).height implies (
                #[trigger] frame.spec_at(x as int, y as int) == old(frame).spec_at(
                    x as int,
                    y as int,
                ) || frame.spec_at(x as int, y as int).fg is None) by {
                    crate::frame::lemma_row_major_bound(
                        x as int,
                        y as int,
                        old(frame).width as int,
                        old(frame).height as int,
                    );
                    assert(frame.spec_at(x as int, y as int) == f1.spec_at(x as int, y as int)
                        || frame.spec_at(x as int, y as int).fg is None);
                    assert(f1.spec_at(x as int, y as int) == old(frame).spec_at(x as int, y as int)
                        || f1.spec_at(x as int, y as int).fg is None);
                }
            }
        }
        let ghost f2 = *frame;
        if self.message.len() > 0 {
            self.calc_message(frame);
            self.draw_message(frame);
            proof {
                if old(self).color_mode == ColorMode::Mono {
                    assert forall|x: u16, y: u16|
                        x < old(frame).width && y < old(frame).height implies (
                    #[trigger] frame.spec_at(x as int, y as int) == old(frame).spec_at(
                        x as int,
                        y as int,
                    ) || frame.spec_at(x as int, y as int).fg is None) by {
                        assert(frame.spec_at(x as int, y as int) == f2.spec_at(x as int, y as int)
                            || frame.spec_at(x as int, y as int).fg is None);
                        assert(f2.spec_at(x as int, y as int) == old(frame).spec_at(
                            x as int,
                            y as int,
                        ) || f2.spec_at(x as int, y as int).fg is None);
                    }
                }
            }
        }
        if time_for_glitch {
            self.last_glitch_time = now;
            let window: u64 = sample_inclusive(
                &mut self.rng,
                self.glitch_low_ms as u64,
                self.glitch_high_ms as u64,
            );
            self.next_glitch_time = crate::arith::add_saturating(now, window);
        }
        self.force_draw_all = false;
        proof {
            let mid = s_upd.droplets@;
            let cs_mid = s_upd.col_stat@;
            let base = if old(self).force_draw_all {
                Seq::new(old(frame).cells@.len(), |i: int| spec_blank_cell(None))
            } else {
                old(frame).cells@
            };
            assert(f1.cells@ =~= base);
            assert(s_upd.env() == spec_mid_env(*old(self), *self));
            let drawn = spec_draw_pass_cells(
                mid,
                mid.len() as int,
                spec_mid_env(*old(self), *self),
                now,
                old(self).force_draw_all,
                old(frame).width,
                old(frame).height,
                base,
            );
            assert(f2.cells@ == drawn);
            assert forall|c: int|
                0 <= c < cs_mid.len() implies (#[trigger] cs_mid[c]).max_speed_permille == old(self).col_stat@[c].max_speed_permille by {
                assert(spec_col_spawn_step(
                    old(self).col_stat@[c],
                    s_spawn.col_stat@[c],
                    old(self).max_droplets_per_column,
                ));
            }
            if self.message@.len() == 0 {
                assert(frame.cells@ == spec_draw_message_cells(
                    self.message@,
                    self.message@.len() as int,
                    old(self).color_mode == ColorMode::Mono,
                    old(self).palette.colors@,
                    old(self).palette.bg,
                    old(self).bold_mode != BoldMode::Off,
                    old(frame).width,
                    old(frame).height,
                    drawn,
                ));
            }
            assert(self.col_stat@ == spec_release_cols(
                mid,
                mid.len() as int,
                old(self).lines,
                cs_mid,
            ));
            assert(spec_rain_tick(*old(self), *self, *old(frame), *frame, now));
        }
    }

    /// Install the active alphabet and draw both rotating glyph pools
    /// from it; an empty alphabet falls back to a minimal two-glyph one.
    pub fn init_chars(&mut self, chars_in: Vec<char>)
        requires
            old(self).wf(),
        ensures
            final(self).wf(),
            *final(self) == (Cloud {
                chars: final(self).chars,
                char_pool: final(self).char_pool,
                glitch_pool: final(self).glitch_pool,
                glitch_pool_idx: 0,
                rng: final(self).rng,
                ..*old(self)
            }),
            final(self).chars@ == (if chars_in@.len() == 0 {
                seq!['0', '1']
            } else {
                chars_in@
            }),
            final(self).char_pool@.len() == CHAR_POOL_SIZE,
            final(self).glitch_pool@.len() == GLITCH_POOL_SIZE,
            forall|i: int|
                0 <= i < final(self).char_pool@.len() ==> final(self).chars@.contains(
                    #[trigger] final(self).char_pool@[i],
                ),
            forall|i: int|
                0 <= i < final(self).glitch_pool@.len() ==> final(self).chars@.contains(
                    #[trigger] final(self).glitch_pool@[i],
                ),
    {
        let mut chars = chars_in;
        if chars.len() == 0 {
            chars.push('0');
            chars.push('1');
            proof {
                assert(chars@ =~= seq!['0', '1']);
            }
        }
        self.chars = chars;
        let hi: u64 = (self.chars.len() - 1) as u64;
        let mut cp: Vec<char> = Vec::new();
        let mut i: usize = 0;
        while i < CHAR_POOL_SIZE
            invariant
                i <= CHAR_POOL_SIZE,
                cp@.len() == i as int,
                self.chars@.len() >= 1,
                hi == self.chars@.len() - 1,
                self.chars@ == (if chars_in@.len() == 0 {
                    seq!['0', '1']
                } else {
                    chars_in@
                }),
                *self == (Cloud { chars: self.chars, rng: self.rng, ..*old(self) }),
                forall|j: int|
                    0 <= j < i as int ==> self.chars@.contains(#[trigger] cp@[j]),
            decreases CHAR_POOL_SIZE - i,
        {
            let idx: usize = sample_inclusive(&mut self.rng, 0, hi) as usize;
            let ch: char = self.chars[idx];
            cp.push(ch);
            i = i + 1;
        }
        self.char_pool = cp;
        let mut gp: Vec<char> = Vec::new();
        let mut k: usize = 0;
        while k < GLITCH_POOL_SIZE
            invariant
                k <= GLITCH_POOL_SIZE,
                gp@.len() == k as int,
                self.chars@.len() >= 1,
                hi == self.chars@.len() - 1,
                self.chars@ == (if chars_in@.len() == 0 {
                    seq!['0', '1']
                } else {
                    chars_in@
                }),
                self.char_pool@.len() == CHAR_POOL_SIZE,
                forall|j: int|
                    0 <= j < self.char_pool@.len() ==> self.chars@.contains(
                        #[trigger] self.char_pool@[j],
                    ),
                *self == (Cloud {
                    chars: self.chars,
                    char_pool: self.char_pool,
                    rng: self.rng,
                    ..*old(self)
                }),
                forall|j: int|
                    0 <= j < k as int ==> self.chars@.contains(#[trigger] gp@[j]),
            decreases GLITCH_POOL_SIZE - k,
        {
            let idx: usize = sample_inclusive(&mut self.rng, 0, hi) as usize;
            let ch: char = self.chars[idx];
            gp.push(ch);
            k = k + 1;
        }
        self.glitch_pool = gp;
        self.glitch_pool_idx = 0;
    }
}

} // verus!
