use vstd::prelude::*;

use crate::arith::{add_saturating, lemma_u64_mul_fits_u128, sat_add_u64, sat_sub_u64,
    sub_saturating};
use crate::cell::Cell;
use crate::cloud::{AttrEnv, CharLoc, DrawCtx};
use crate::frame::{spec_blank_cell, Frame};

verus! {

/// Fixed-point scale: one glyph of advance equals this many micro-glyphs.
/// Speeds are kept in milli-glyphs per second and times in milliseconds,
/// so speed times elapsed time is directly in micro-glyphs.
pub const MICRO_PER_GLYPH: u64 = 1000000;

/// How long after its head stops a droplet's head keeps the bright head
/// color, in milliseconds.
pub const HEAD_BRIGHT_MS: u64 = 100;

/// One falling streak, bound to a single column. The head line grows
/// toward the end line; once the streak has filled, the tail line chases
/// the head; the droplet dies when the tail catches the head.
#[derive(Clone, Copy, Debug)]
pub struct Droplet {
    pub is_alive: bool,
    pub is_head_crawling: bool,
    pub is_tail_crawling: bool,
    /// Whether this slot is counted against its column's live-droplet
    /// budget; set at spawn, cleared when the orchestrator releases the
    /// slot after death.
    pub holds_column: bool,

    pub bound_col: u16,
    pub head_put_line: u16,
    pub head_cur_line: u16,

    pub tail_put_line: Option<u16>,
    pub tail_cur_line: u16,

    pub end_line: u16,
    pub char_pool_idx: u16,
    pub length: u16,
    /// Speed in milli-glyphs per second.
    pub chars_per_sec_milli: u64,

    /// Carried sub-glyph advance, in micro-glyphs; always below
    /// `MICRO_PER_GLYPH`.
    pub advance_rem_micro: u64,

    /// Timestamps in milliseconds on the caller's clock.
    pub last_time: Option<u64>,
    pub head_stop_time: Option<u64>,
    pub time_to_linger_ms: u64,
}

impl Droplet {
    /// Structural invariant of a droplet: the carried remainder is a
    /// proper fraction of a glyph; the tail never passes the head and the
    /// head never passes the end line; a live droplet whose head has
    /// stopped crawling stands at its end line; and the head-stop
    /// timestamp appears only once the head has stopped.
    pub open spec fn wf(self) -> bool {
        &&& self.advance_rem_micro < MICRO_PER_GLYPH
        &&& self.head_put_line <= self.end_line
        &&& (self.tail_put_line is Some ==> self.tail_put_line->0 <= self.head_put_line)
        &&& (self.is_alive && !self.is_head_crawling ==> self.head_put_line == self.end_line)
        &&& (self.is_head_crawling ==> self.head_stop_time is None)
    }

    /// A droplet is consistent with its lines exactly when it is alive iff
    /// the tail has not caught the head.
    pub open spec fn live_consistent(self) -> bool {
        self.is_alive == (self.tail_put_line != Some(self.head_put_line))
    }

    /// The whole-glyph advance and the new carried remainder for a step
    /// from the last update to `now`.
    pub open spec fn spec_step_amount(self, now: u64) -> (int, int)
        recommends
            self.last_time is Some,
    {
        let elapsed: int = if now >= self.last_time->0 {
            now - self.last_time->0
        } else {
            0
        };
        let total: int = self.advance_rem_micro + self.chars_per_sec_milli * elapsed;
        let whole: int = total / (MICRO_PER_GLYPH as int);
        let adv: int = if whole > 0xffff {
            0xffff
        } else {
            whole
        };
        (adv, total % (MICRO_PER_GLYPH as int))
    }

    /// Head phase of a step: a crawling head moves down by the advance
    /// quantity, clamped to the end line; on reaching the end line it
    /// stops, and the first stop records the timestamp and, when a linger
    /// is configured, freezes the tail.
    pub open spec fn spec_head_step(self, now: u64, adv: int) -> Droplet {
        if !self.is_head_crawling {
            self
        } else {
            let h: int = if self.head_put_line + adv > self.end_line {
                self.end_line as int
            } else {
                self.head_put_line + adv
            };
            if h == self.end_line {
                Droplet {
                    head_put_line: h as u16,
                    is_head_crawling: false,
                    head_stop_time: if self.head_stop_time is None {
                        Some(now)
                    } else {
                        self.head_stop_time
                    },
                    is_tail_crawling: if self.head_stop_time is None && self.time_to_linger_ms
                        > 0 {
                        false
                    } else {
                        self.is_tail_crawling
                    },
                    ..self
                }
            } else {
                Droplet { head_put_line: h as u16, ..self }
            }
        }
    }

    /// Tail phase of a step: once the streak has filled (the head has
    /// reached the target length or the end line), a crawling tail moves
    /// by the same advance quantity, clamped to the end line; the step
    /// signals the bound column free when the tail first crosses a quarter
    /// of the viewport height.
    pub open spec fn spec_tail_step(self, adv: int, lines: u16) -> (Droplet, bool) {
        if self.is_tail_crawling && (self.head_put_line >= self.length || self.head_put_line
            >= self.end_line) {
            let base: int = if self.tail_put_line is Some {
                self.tail_put_line->0 + adv
            } else {
                adv
            };
            let nt: int = if base > self.end_line {
                self.end_line as int
            } else {
                base
            };
            let stepped = Droplet { tail_put_line: Some(nt as u16), ..self };
            let thresh: int = lines as int / 4;
            (stepped, self.tail_cur_line <= thresh && nt > thresh)
        } else {
            (self, false)
        }
    }

    /// Linger phase of a step: a frozen tail resumes once the linger
    /// duration has elapsed since the head stopped.
    pub open spec fn spec_linger_step(self, now: u64) -> Droplet {
        if !self.is_tail_crawling && self.head_stop_time is Some && (if now
            >= self.head_stop_time->0 {
            now - self.head_stop_time->0
        } else {
            0
        }) >= self.time_to_linger_ms {
            Droplet { is_tail_crawling: true, ..self }
        } else {
            self
        }
    }

    /// Death phase of a step: the droplet dies when the tail has caught
    /// the head.
    pub open spec fn spec_death_step(self) -> Droplet {
        if self.tail_put_line == Some(self.head_put_line) {
            Droplet { is_alive: false, ..self }
        } else {
            self
        }
    }

    /// One full step from the last update to `now`: the droplet after the
    /// step, and whether it signalled its column free.
    pub open spec fn spec_advance(self, now: u64, lines: u16) -> (Droplet, bool) {
        if self.last_time is None {
            (Droplet { last_time: Some(now), ..self }, false)
        } else {
            let (adv, rem) = self.spec_step_amount(now);
            if adv == 0 {
                (Droplet { advance_rem_micro: rem as u64, last_time: Some(now), ..self }, false)
            } else {
                let d0 = Droplet { advance_rem_micro: rem as u64, ..self };
                let d1 = d0.spec_head_step(now, adv);
                let (d2, freed) = d1.spec_tail_step(adv, lines);
                if freed {
                    (Droplet { last_time: Some(now), ..d2 }, true)
                } else {
                    let d3 = d2.spec_linger_step(now);
                    let d4 = d3.spec_death_step();
                    (Droplet { last_time: Some(now), ..d4 }, false)
                }
            }
        }
    }

    /// A dormant droplet, ready for a pool slot.
    pub fn new() -> (d: Droplet)
        ensures
            d == Droplet::spec_new(),
            d.wf(),
            !d.is_alive,
            !d.holds_column,
    {
        Droplet {
            is_alive: false,
            is_head_crawling: false,
            is_tail_crawling: false,
            holds_column: false,
            bound_col: 0xffff,
            head_put_line: 0,
            head_cur_line: 0,
            tail_put_line: None,
            tail_cur_line: 0,
            end_line: 0xffff,
            char_pool_idx: 0xffff,
            length: 0xffff,
            chars_per_sec_milli: 0,
            advance_rem_micro: 0,
            last_time: None,
            head_stop_time: None,
            time_to_linger_ms: 0,
        }
    }

    /// The dormant droplet as a spec value.
    pub open spec fn spec_new() -> Droplet {
        Droplet {
            is_alive: false,
            is_head_crawling: false,
            is_tail_crawling: false,
            holds_column: false,
            bound_col: 0xffff,
            head_put_line: 0,
            head_cur_line: 0,
            tail_put_line: None,
            tail_cur_line: 0,
            end_line: 0xffff,
            char_pool_idx: 0xffff,
            length: 0xffff,
            chars_per_sec_milli: 0,
            advance_rem_micro: 0,
            last_time: None,
            head_stop_time: None,
            time_to_linger_ms: 0,
        }
    }

    /// Return the droplet to its dormant state.
    pub fn reset(&mut self)
        ensures
            *final(self) == Droplet::spec_new(),
    {
        *self = Droplet::new();
    }

    /// Bring a freshly parameterized droplet to life: both edges crawl,
    /// the carried remainder is cleared and the clock starts at `now`.
    pub fn activate(&mut self, now: u64)
        ensures
            *final(self) == (Droplet {
                is_alive: true,
                is_head_crawling: true,
                is_tail_crawling: true,
                advance_rem_micro: 0,
                last_time: Some(now),
                ..*old(self)
            }),
    {
        self.is_alive = true;
        self.is_head_crawling = true;
        self.is_tail_crawling = true;
        self.advance_rem_micro = 0;
        self.last_time = Some(now);
    }

    /// Advance the state machine from the last update to `now` (both in
    /// milliseconds), on a viewport `lines` high. Elapsed time is turned
    /// into a whole-glyph advance with the fraction carried, the head and
    /// tail lines move as `spec_advance` describes, and the result says
    /// whether the bound column may accept a new spawn (the tail crossed a
    /// quarter of the viewport height for the first time; at most once per
    /// lifetime).
    pub fn advance(&mut self, now: u64, lines: u16) -> (freed: bool)
        requires
            old(self).wf(),
        ensures
            (*final(self), freed) == old(self).spec_advance(now, lines),
            old(self).is_alive ==> final(self).wf(),
            final(self).advance_rem_micro < MICRO_PER_GLYPH,
            // The head-crawling flag never comes back on.
            final(self).is_head_crawling ==> old(self).is_head_crawling,
            // The head-stop timestamp is set at most once and never changed.
            old(self).head_stop_time is Some ==> final(self).head_stop_time
                == old(self).head_stop_time,
            // It is set exactly when the head first stops, at the end line.
            old(self).head_stop_time is None && final(self).head_stop_time is Some ==> {
                &&& final(self).head_stop_time == Some(now)
                &&& !final(self).is_head_crawling
                &&& old(self).is_head_crawling
                &&& final(self).head_put_line == final(self).end_line
            },
            // A live droplet stays alive exactly while the tail has not
            // caught the head, except on the tick that signals its column
            // free, which defers the death check to the next step.
            old(self).is_alive && old(self).live_consistent() && !freed
                ==> final(self).live_consistent(),
    {
        let last: u64 = match self.last_time {
            Some(t) => t,
            None => {
                self.last_time = Some(now);
                return false;
            },
        };
        let elapsed: u64 = if now >= last {
            now - last
        } else {
            0
        };
        proof {
            lemma_u64_mul_fits_u128(self.chars_per_sec_milli, elapsed);
        }
        let total: u128 = (self.advance_rem_micro as u128) + (self.chars_per_sec_milli as u128) * (
        elapsed as u128);
        let whole: u128 = total / (MICRO_PER_GLYPH as u128);
        self.advance_rem_micro = (total % (MICRO_PER_GLYPH as u128)) as u64;
        let chars_advanced: u16 = if whole > 0xffff {
            0xffff
        } else {
            whole as u16
        };
        if chars_advanced == 0 {
            self.last_time = Some(now);
            return false;
        }
        // Head phase.
        if self.is_head_crawling {
            let h32: u32 = self.head_put_line as u32 + chars_advanced as u32;
            let h: u16 = if h32 > self.end_line as u32 {
                self.end_line
            } else {
                h32 as u16
            };
            self.head_put_line = h;
            if h == self.end_line {
                self.is_head_crawling = false;
                if self.head_stop_time.is_none() {
                    self.head_stop_time = Some(now);
                    if self.time_to_linger_ms > 0 {
                        self.is_tail_crawling = false;
                    }
                }
            }
        }
        // Tail phase.
        if self.is_tail_crawling && (self.head_put_line >= self.length || self.head_put_line
            >= self.end_line) {
            let base: u32 = match self.tail_put_line {
                Some(v) => v as u32 + chars_advanced as u32,
                None => chars_advanced as u32,
            };
            let nt: u16 = if base > self.end_line as u32 {
                self.end_line
            } else {
                base as u16
            };
            self.tail_put_line = Some(nt);
            let thresh: u16 = lines / 4;
            if self.tail_cur_line <= thresh && nt > thresh {
                self.last_time = Some(now);
                return true;
            }
        }
        // Linger phase.
        if !self.is_tail_crawling {
            match self.head_stop_time {
                Some(stop) => {
                    let since: u64 = if now >= stop {
                        now - stop
                    } else {
                        0
                    };
                    if since >= self.time_to_linger_ms {
                        self.is_tail_crawling = true;
                    }
                },
                None => {},
            }
        }
        // Death phase.
        match self.tail_put_line {
            Some(tp) => {
                if tp == self.head_put_line {
                    self.is_alive = false;
                }
            },
            None => {},
        }
        self.last_time = Some(now);
        false
    }

    /// Whether the head still shows the bright head color at `now`: it is
    /// crawling, or stopped no more than `HEAD_BRIGHT_MS` ago.
    pub open spec fn spec_head_bright(self, now: u64) -> bool {
        ||| self.is_head_crawling
        ||| (self.head_stop_time is Some && sat_sub_u64(now, self.head_stop_time->0)
            <= HEAD_BRIGHT_MS)
    }

    /// Whether the head still shows the bright head color at `now`.
    pub fn is_head_bright(&self, now: u64) -> (r: bool)
        ensures
            r == self.spec_head_bright(now),
    {
        if self.is_head_crawling {
            return true;
        }
        match self.head_stop_time {
            Some(stop) => sub_saturating(now, stop) <= HEAD_BRIGHT_MS,
            None => false,
        }
    }

    /// How `line` relates to this droplet when drawn at `now`: the bright
    /// head wins over the tail edge, everything else is middle.
    pub open spec fn spec_loc(self, line: u16, now: u64) -> CharLoc {
        if line == self.head_put_line && self.spec_head_bright(now) {
            CharLoc::Head
        } else if self.tail_put_line is Some && line == self.tail_put_line->0 + 1 {
            CharLoc::Tail
        } else {
            CharLoc::Middle
        }
    }

    /// Whether drawing may skip `line`: a middle row above the last drawn
    /// head position that is not glitch-eligible, not the end line, with
    /// distance shading off and no full redraw forced. Skipped rows are
    /// already on screen unchanged.
    pub open spec fn spec_skip(self, env: AttrEnv, line: u16, now: u64, draw_all: bool) -> bool {
        &&& self.spec_loc(line, now) is Middle
        &&& line < self.head_cur_line
        &&& !env.spec_is_glitched(line, self.bound_col)
        &&& line != self.end_line
        &&& !env.shading_distance
        &&& !draw_all
    }

    /// The first line of this draw pass's write range: just past the tail.
    pub open spec fn spec_draw_start(self) -> int {
        if self.tail_put_line is Some {
            self.tail_put_line->0 + 1
        } else {
            0
        }
    }

    /// The catch-up blanking phase of a draw: rows from the previously
    /// drawn tail position through the new tail line become blank.
    pub open spec fn spec_blank_phase(self, env: AttrEnv, line: u16, prev: Cell) -> Cell {
        if self.tail_put_line is Some && self.tail_cur_line <= line <= self.tail_put_line->0 {
            spec_blank_cell(env.bg)
        } else {
            prev
        }
    }

    /// The glyph cell this droplet writes on `line` when it does not skip
    /// it.
    pub open spec fn spec_written_cell(self, env: AttrEnv, line: u16, now: u64) -> Cell {
        let val = env.spec_get_char(line, self.char_pool_idx);
        let loc = self.spec_loc(line, now);
        Cell {
            ch: val,
            fg: env.spec_final_fg(
                line,
                self.bound_col,
                val,
                loc,
                now,
                self.head_put_line,
                self.length,
            ),
            bg: env.bg,
            bold: env.spec_final_bold(
                line,
                self.bound_col,
                val,
                loc,
                now,
                self.head_put_line,
                self.length,
            ),
        }
    }

    /// The writing phase of a draw: rows from just past the tail through
    /// the head, within the viewport, take their glyph cell unless
    /// skipped.
    pub open spec fn spec_write_phase(
        self,
        env: AttrEnv,
        now: u64,
        draw_all: bool,
        line: u16,
        prev: Cell,
    ) -> Cell {
        if self.spec_draw_start() <= line <= self.head_put_line && line < env.lines {
            if self.spec_skip(env, line, now, draw_all) {
                prev
            } else {
                self.spec_written_cell(env, line, now)
            }
        } else {
            prev
        }
    }

    /// What one draw pass leaves at `line` of the droplet's own column,
    /// given the cell `prev` that stood there: the blanking phase then
    /// the writing phase.
    pub open spec fn spec_drawn_cell(
        self,
        env: AttrEnv,
        now: u64,
        draw_all: bool,
        line: u16,
        prev: Cell,
    ) -> Cell {
        self.spec_write_phase(env, now, draw_all, line, self.spec_blank_phase(env, line, prev))
    }

    /// What one draw pass leaves at `line` of the spacer column right of
    /// the droplet in full-width mode: blank wherever a glyph was
    /// written.
    pub open spec fn spec_spacer_cell(
        self,
        env: AttrEnv,
        now: u64,
        draw_all: bool,
        line: u16,
        prev: Cell,
    ) -> Cell {
        if env.full_width && self.spec_draw_start() <= line <= self.head_put_line && line
            < env.lines && !self.spec_skip(env, line, now, draw_all) {
            spec_blank_cell(env.bg)
        } else {
            prev
        }
    }

    /// Draw this droplet into `frame` at `now`: blank the rows the tail
    /// passed since the last draw, then write the visible streak, and
    /// remember the drawn positions. Only the droplet's own column — and,
    /// in full-width mode, the spacer column right of it — changes.
    pub fn draw(&mut self, ctx: &DrawCtx, frame: &mut Frame, now: u64, draw_all: bool)
        requires
            old(frame).wf(),
            ctx.wf(),
        ensures
            final(frame).wf(),
            final(frame).width == old(frame).width,
            final(frame).height == old(frame).height,
            *final(self) == (Droplet {
                tail_cur_line: match old(self).tail_put_line {
                    Some(tp) => tp,
                    None => old(self).tail_cur_line,
                },
                head_cur_line: old(self).head_put_line,
                ..*old(self)
            }),
            // Per-cell outcome: the droplet's own column takes the drawn
            // cells, the spacer column is blanked under written rows in
            // full-width mode, everything else is untouched.
            forall|x: u16, y: u16|
                x < old(frame).width && y < old(frame).height ==> final(frame).spec_at(
                    x as int,
                    y as int,
                ) == {
                    let prev = old(frame).spec_at(x as int, y as int);
                    if x == old(self).bound_col {
                        old(self).spec_drawn_cell(ctx.env(), now, draw_all, y, prev)
                    } else if x == old(self).bound_col + 1 {
                        old(self).spec_spacer_cell(ctx.env(), now, draw_all, y, prev)
                    } else {
                        prev
                    }
                },
    {
        let bg = ctx.bg;
        let col: u16 = self.bound_col;
        let mut start: u32 = 0;
        match self.tail_put_line {
            Some(tp) => {
                let mut line: u32 = self.tail_cur_line as u32;
                while line <= tp as u32
                    invariant
                        frame.wf(),
                        frame.width == old(frame).width,
                        frame.height == old(frame).height,
                        *self == *old(self),
                        old(self).tail_put_line == Some(tp),
                        old(self).tail_cur_line as u32 <= line,
                        line <= tp as u32 + 1 || line == old(self).tail_cur_line as u32,
                        col == old(self).bound_col,
                        bg == ctx.bg,
                        ctx.wf(),
                        forall|x: u16, y: u16|
                            x < old(frame).width && y < old(frame).height ==> frame.spec_at(
                                x as int,
                                y as int,
                            ) == (if x == old(self).bound_col && old(self).tail_cur_line <= y
                                && y < line {
                                spec_blank_cell(ctx.bg)
                            } else {
                                old(frame).spec_at(x as int, y as int)
                            }),
                    decreases tp as int + 1 - line,
                {
                    let ghost pre = *frame;
                    frame.set(col, line as u16, Cell::blank_with_bg(bg));
                    proof {
                        assert forall|x: u16, y: u16|
                            x < old(frame).width && y < old(frame).height implies frame.spec_at(
                            x as int,
                            y as int,
                        ) == (if x == old(self).bound_col && old(self).tail_cur_line <= y && y
                            < line + 1 {
                            spec_blank_cell(ctx.bg)
                        } else {
                            old(frame).spec_at(x as int, y as int)
                        }) by {
                            assert(pre.spec_at(x as int, y as int) == (if x == old(
                                self,
                            ).bound_col && old(self).tail_cur_line <= y && y < line {
                                spec_blank_cell(ctx.bg)
                            } else {
                                old(frame).spec_at(x as int, y as int)
                            }));
                            assert(frame.spec_at(x as int, y as int) == (if x == col && y == (
                            line as u16) {
                                spec_blank_cell(ctx.bg)
                            } else {
                                pre.spec_at(x as int, y as int)
                            }));
                        }
                    }
                    line = line + 1;
                }
                self.tail_cur_line = tp;
                start = tp as u32 + 1;
            },
            None => {},
        }
        assert(forall|x: u16, y: u16|
            x < old(frame).width && y < old(frame).height ==> frame.spec_at(x as int, y as int)
                == (if x == old(self).bound_col {
                old(self).spec_blank_phase(ctx.env(), y, old(frame).spec_at(x as int, y as int))
            } else {
                old(frame).spec_at(x as int, y as int)
            }));
        let head_bright = self.is_head_bright(now);
        let mut line: u32 = start;
        while line <= self.head_put_line as u32 && line < ctx.lines as u32
            invariant
                frame.wf(),
                frame.width == old(frame).width,
                frame.height == old(frame).height,
                ctx.wf(),
                start == old(self).spec_draw_start(),
                start <= line,
                col == old(self).bound_col,
                bg == ctx.bg,
                head_bright == old(self).spec_head_bright(now),
                *self == (Droplet {
                    tail_cur_line: match old(self).tail_put_line {
                        Some(tp) => tp,
                        None => old(self).tail_cur_line,
                    },
                    ..*old(self)
                }),
                forall|x: u16, y: u16|
                    x < old(frame).width && y < old(frame).height ==> frame.spec_at(
                        x as int,
                        y as int,
                    ) == {
                        let prev = old(frame).spec_at(x as int, y as int);
                        if x == old(self).bound_col && y < line {
                            old(self).spec_drawn_cell(ctx.env(), now, draw_all, y, prev)
                        } else if x == old(self).bound_col {
                            old(self).spec_blank_phase(ctx.env(), y, prev)
                        } else if x == old(self).bound_col + 1 && y < line {
                            old(self).spec_spacer_cell(ctx.env(), now, draw_all, y, prev)
                        } else {
                            prev
                        }
                    },
            decreases self.head_put_line as int + 1 - line,
        {
            let l: u16 = line as u16;
            let is_glitched = ctx.is_glitched(l, col);
            let val = ctx.get_char(l, self.char_pool_idx);
            let mut loc = CharLoc::Middle;
            match self.tail_put_line {
                Some(v) => {
                    if line == v as u32 + 1 {
                        loc = CharLoc::Tail;
                    }
                },
                None => {},
            }
            if l == self.head_put_line && head_bright {
                loc = CharLoc::Head;
            }
            assert(loc == old(self).spec_loc(l, now));
            let skip = loc == CharLoc::Middle && l < self.head_cur_line && !is_glitched && l
                != self.end_line && !ctx.shading_distance && !draw_all;
            assert(skip == old(self).spec_skip(ctx.env(), l, now, draw_all));
            let ghost pre = *frame;
            if !skip {
                let (fg, bold) = ctx.get_attr(l, col, val, loc, now, self.head_put_line, self.length);
                frame.set(col, l, Cell { ch: val, fg, bg, bold });
                if ctx.full_width {
                    if col as u32 + 1 < frame.width as u32 {
                        frame.set(
                            (col as u32 + 1) as u16,
                            l,
                            Cell { ch: ' ', fg: None, bg, bold: false },
                        );
                    }
                }
            }
            proof {
                assert forall|x: u16, y: u16|
                    x < old(frame).width && y < old(frame).height implies frame.spec_at(
                    x as int,
                    y as int,
                ) == {
                    let prev = old(frame).spec_at(x as int, y as int);
                    if x == old(self).bound_col && y < line + 1 {
                        old(self).spec_drawn_cell(ctx.env(), now, draw_all, y, prev)
                    } else if x == old(self).bound_col {
                        old(self).spec_blank_phase(ctx.env(), y, prev)
                    } else if x == old(self).bound_col + 1 && y < line + 1 {
                        old(self).spec_spacer_cell(ctx.env(), now, draw_all, y, prev)
                    } else {
                        prev
                    }
                } by {
                    let prev = old(frame).spec_at(x as int, y as int);
                    assert(pre.spec_at(x as int, y as int) == (if x == old(self).bound_col && y
                        < line {
                        old(self).spec_drawn_cell(ctx.env(), now, draw_all, y, prev)
                    } else if x == old(self).bound_col {
                        old(self).spec_blank_phase(ctx.env(), y, prev)
                    } else if x == old(self).bound_col + 1 && y < line {
                        old(self).spec_spacer_cell(ctx.env(), now, draw_all, y, prev)
                    } else {
                        prev
                    }));
                }
            }
            line = line + 1;
        }
        self.head_cur_line = self.head_put_line;
        proof {
            assert forall|x: u16, y: u16|
                x < old(frame).width && y < old(frame).height implies frame.spec_at(
                x as int,
                y as int,
            ) == {
                let prev = old(frame).spec_at(x as int, y as int);
                if x == old(self).bound_col {
                    old(self).spec_drawn_cell(ctx.env(), now, draw_all, y, prev)
                } else if x == old(self).bound_col + 1 {
                    old(self).spec_spacer_cell(ctx.env(), now, draw_all, y, prev)
                } else {
                    prev
                }
            } by {
                let prev = old(frame).spec_at(x as int, y as int);
                assert(frame.spec_at(x as int, y as int) == (if x == old(self).bound_col && y
                    < line {
                    old(self).spec_drawn_cell(ctx.env(), now, draw_all, y, prev)
                } else if x == old(self).bound_col {
                    old(self).spec_blank_phase(ctx.env(), y, prev)
                } else if x == old(self).bound_col + 1 && y < line {
                    old(self).spec_spacer_cell(ctx.env(), now, draw_all, y, prev)
                } else {
                    prev
                }));
            }
        }
    }

    /// Shift this droplet's timestamps forward by `delta` milliseconds;
    /// used when a pause ends, so that physics resumes without a time
    /// jump. Timestamps saturate rather than wrap.
    pub fn increment_time(&mut self, delta: u64)
        ensures
            *final(self) == (Droplet {
                last_time: match old(self).last_time {
                    Some(t) => Some(sat_add_u64(t, delta)),
                    None => None,
                },
                head_stop_time: match old(self).head_stop_time {
                    Some(t) => Some(sat_add_u64(t, delta)),
                    None => None,
                },
                ..*old(self)
            }),
    {
        match self.last_time {
            Some(t) => {
                self.last_time = Some(add_saturating(t, delta));
            },
            None => {},
        }
        match self.head_stop_time {
            Some(t) => {
                self.head_stop_time = Some(add_saturating(t, delta));
            },
            None => {},
        }
    }
}

} // verus!
