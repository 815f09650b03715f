//! The tick/division sequencer: timing, effect dispatch and channel
//! management over a decoded module.
//!
//! Time is counted in output samples. A division (one pattern row) lasts
//! [`spec_division_len`] samples and splits into `ticks_per_division` ticks
//! of [`spec_tick_len`] samples, on which the continuous volume-slide
//! effects run. Each output sample the player counts both clocks down,
//! advances rows and ticks as they expire, and mixes the four channels.

use vstd::prelude::*;
use crate::dsp::{volume_scaled, tdiv, converted, resampled, FIXED_ONE};
use crate::notes::Note;
use crate::playback::{
    SamplePlayback, ModSignal, SamplePlaybackState, spec_playback_step, spec_play_len,
    spec_play_repeat, spec_inc,
};
use crate::promod::{
    Module, Data, Effect, spec_effect_from, spec_effect_bits, spec_sample_number, spec_period,
    spec_module_wf,
};
use crate::sound::{Generator, Enveloped};

verus! {

/// One of the four playback slots: its active voice, what it remembers for
/// "continue" rows, and an armed per-tick volume slide.
pub struct Channel {
    pub generator: Option<SamplePlayback<ModSignal>>,
    pub last_sample: Option<usize>,
    pub last_note: Option<Note>,
    pub volume_slide: Option<i8>,
}

impl Channel {
    /// An empty slot.
    pub fn new() -> (r: Channel)
        ensures
            r.generator is None,
            r.last_sample is None,
            r.last_note is None,
            r.volume_slide is None,
    {
        Channel { generator: None, last_sample: None, last_note: None, volume_slide: None }
    }
}

/// Samples in one division: 60 seconds of output over `24 * bpm / tpd`
/// divisions per minute, floored.
pub open spec fn spec_division_len(bpm: int, tpd: int, rate: int) -> int {
    (60 * rate * tpd) / (24 * bpm)
}

/// Samples in one tick: a division split into `tpd` ticks, which cancels
/// the `tpd` factor.
pub open spec fn spec_tick_len(bpm: int, rate: int) -> int {
    (60 * rate) / (24 * bpm)
}

/// The packed cell of channel `i` at the given position.
pub open spec fn spec_cell_of(m: Module, pat: int, row: int, i: int) -> u32 {
    m.patterns[pat].rows[row].channels[i].0
}

/// The effect of channel `i`'s cell at the given position.
pub open spec fn spec_effect_of(m: Module, pat: int, row: int, i: int) -> Effect {
    spec_effect_from(spec_effect_bits(spec_cell_of(m, pat, row, i)) as u16)
}

/// The tempo after the first `c` cells of a row apply their entry effects
/// to `bpm0`: the last set-tempo cell wins.
pub open spec fn spec_row_bpm(m: Module, pat: int, row: int, c: int, bpm0: u16) -> u16
    decreases c,
{
    if c <= 0 {
        bpm0
    } else {
        match spec_effect_of(m, pat, row, c - 1) {
            Effect::SetBeatsPerMinute { bpm } => bpm,
            _ => spec_row_bpm(m, pat, row, c - 1, bpm0),
        }
    }
}

/// The ticks-per-division after the first `c` cells of a row apply their
/// entry effects to `tpd0`: the last set cell wins.
pub open spec fn spec_row_tpd(m: Module, pat: int, row: int, c: int, tpd0: u16) -> u16
    decreases c,
{
    if c <= 0 {
        tpd0
    } else {
        match spec_effect_of(m, pat, row, c - 1) {
            Effect::SetTicksPerDivision { tpd } => tpd,
            _ => spec_row_tpd(m, pat, row, c - 1, tpd0),
        }
    }
}

/// The armed pattern-break target after the first `c` cells of a row apply
/// their entry effects to `brk0`: the last break cell wins.
pub open spec fn spec_row_break(m: Module, pat: int, row: int, c: int, brk0: Option<usize>) -> Option<usize>
    decreases c,
{
    if c <= 0 {
        brk0
    } else {
        match spec_effect_of(m, pat, row, c - 1) {
            Effect::PatternBreak { division } => Some(division),
            _ => spec_row_break(m, pat, row, c - 1, brk0),
        }
    }
}

/// The volume an entry effect leaves a sounding voice at, starting from
/// `v0`: set-volume and the fine slides clamp into 0..=64; everything else
/// leaves the volume alone.
pub open spec fn spec_effect_volume(eff: Effect, v0: int) -> int {
    match eff {
        Effect::SetVolume { volume } => if volume > 64 {
            64
        } else {
            volume as int
        },
        Effect::FineVolumeSlideUp { up } => if v0 + up > 64 {
            64
        } else {
            v0 + up
        },
        Effect::FineVolumeSlideDown { down } => if down > v0 {
            0
        } else {
            v0 - down
        },
        _ => v0,
    }
}

/// The per-tick slide an entry effect arms: a pure slide up or a pure slide
/// down arms its signed step; a mixed or empty slide arms nothing.
pub open spec fn spec_effect_slide(eff: Effect) -> Option<i8> {
    match eff {
        Effect::VolumeSlide { up, down } => if up == 0 && down != 0 {
            Some((-(down as int)) as i8)
        } else if down == 0 && up != 0 {
            Some(up as i8)
        } else {
            None
        },
        _ => None,
    }
}

/// The volume an armed slide moves a voice to on one tick, clamped into
/// 0..=64.
pub open spec fn spec_slide_volume(v0: int, slide: Option<i8>) -> int {
    match slide {
        Some(s) => if v0 + s > 64 {
            64
        } else if v0 + s < 0 {
            0
        } else {
            v0 + s
        },
        None => v0,
    }
}

/// What the trigger pass alone does to channel `i`: a resolvable cell
/// starts a fresh voice at the sample's own volume and remembers the
/// resolution; any other cell leaves the channel untouched.
pub open spec fn spec_channel_loaded(
    m: Module,
    pat: int,
    row: int,
    i: int,
    old_ch: Channel,
    ch: Channel,
    rate: int,
) -> bool {
    let cell = spec_cell_of(m, pat, row, i);
    let period = spec_period(cell) as int;
    let snum = spec_sample_number(cell) as int;
    let untouched = period == 0 && snum == 0;
    let notef: int = if period != 0 {
        1117600int / period
    } else if old_ch.last_note is Some {
        old_ch.last_note->0.spec_freq() as int
    } else {
        0
    };
    let samp: int = if snum != 0 {
        snum
    } else if old_ch.last_sample is Some {
        old_ch.last_sample->0 as int
    } else {
        0
    };
    let triggers = !untouched && notef > 0 && 1 <= samp <= 31;
    if triggers {
        &&& ch.volume_slide == old_ch.volume_slide
        &&& ch.last_sample == Some(samp as usize)
        &&& ch.last_note matches Some(nn) && nn.spec_freq() == notef
        &&& ch.generator matches Some(g) && {
            let s = m.samples[samp - 1];
            &&& g.spec_signal() == converted(
                resampled(s.data@, spec_play_len(s.data@.len() as int, rate, notef) as nat),
            )
            &&& g.spec_repeat() == spec_play_repeat(s, rate, notef)
            &&& g.spec_state() == (SamplePlaybackState::First { ix: 0 })
            &&& g.spec_volume() == s.volume
        }
    } else {
        ch == old_ch
    }
}

/// What loading a row does to channel `i`, entry effects included.
///
/// A cell with neither period nor sample number leaves the voice alone; a
/// cell that cannot resolve a note or a sample (nothing remembered, or a
/// sample number past the 31 slots) is skipped likewise. Otherwise a fresh
/// voice is built from the resolved sample at the resolved note and started
/// from the beginning, and the resolution is remembered. Either way the
/// cell's entry effect then adjusts the sounding voice's volume and arms
/// (or clears) the per-tick slide.
pub open spec fn spec_channel_after_row(
    m: Module,
    pat: int,
    row: int,
    i: int,
    old_ch: Channel,
    ch: Channel,
    rate: int,
) -> bool {
    let cell = spec_cell_of(m, pat, row, i);
    let eff = spec_effect_from(spec_effect_bits(cell) as u16);
    let period = spec_period(cell) as int;
    let snum = spec_sample_number(cell) as int;
    let untouched = period == 0 && snum == 0;
    let notef: int = if period != 0 {
        1117600int / period
    } else if old_ch.last_note is Some {
        old_ch.last_note->0.spec_freq() as int
    } else {
        0
    };
    let samp: int = if snum != 0 {
        snum
    } else if old_ch.last_sample is Some {
        old_ch.last_sample->0 as int
    } else {
        0
    };
    let triggers = !untouched && notef > 0 && 1 <= samp <= 31;
    &&& ch.volume_slide == spec_effect_slide(eff)
    &&& if triggers {
        &&& ch.last_sample == Some(samp as usize)
        &&& ch.last_note matches Some(nn) && nn.spec_freq() == notef
        &&& ch.generator matches Some(g) && {
            let s = m.samples[samp - 1];
            &&& g.spec_signal() == converted(
                resampled(s.data@, spec_play_len(s.data@.len() as int, rate, notef) as nat),
            )
            &&& g.spec_repeat() == spec_play_repeat(s, rate, notef)
            &&& g.spec_state() == (SamplePlaybackState::First { ix: 0 })
            &&& g.spec_volume() as int == spec_effect_volume(eff, s.volume as int)
        }
    } else {
        &&& ch.last_sample == old_ch.last_sample
        &&& ch.last_note == old_ch.last_note
        &&& match (old_ch.generator, ch.generator) {
            (None, None) => true,
            (Some(g0), Some(g)) => {
                &&& g.spec_signal() == g0.spec_signal()
                &&& g.spec_repeat() == g0.spec_repeat()
                &&& g.spec_state() == g0.spec_state()
                &&& g.spec_volume() as int == spec_effect_volume(eff, g0.spec_volume() as int)
            },
            _ => false,
        }
    }
}

/// What one tick does to a channel: when `ticked`, an armed slide moves a
/// sounding voice's volume one step; otherwise nothing changes.
pub open spec fn spec_tick_channel(ticked: bool, ch0: Channel, ch: Channel) -> bool {
    if ticked {
        &&& ch.last_sample == ch0.last_sample
        &&& ch.last_note == ch0.last_note
        &&& ch.volume_slide == ch0.volume_slide
        &&& match (ch0.generator, ch.generator) {
            (None, None) => true,
            (Some(g0), Some(g)) => {
                &&& g.spec_signal() == g0.spec_signal()
                &&& g.spec_repeat() == g0.spec_repeat()
                &&& g.spec_state() == g0.spec_state()
                &&& g.spec_volume() as int == (if ch0.volume_slide is Some {
                    spec_slide_volume(g0.spec_volume() as int, ch0.volume_slide)
                } else {
                    g0.spec_volume() as int
                })
            },
            _ => false,
        }
    } else {
        ch == ch0
    }
}

/// The sample a channel contributes when its voice is advanced: the voice's
/// playback step scaled by its volume; silence for an empty slot.
pub open spec fn spec_channel_out(ch: Channel) -> int {
    match ch.generator {
        Some(g) => {
            let (st2, raw) = spec_playback_step(g.spec_signal(), g.spec_repeat(), g.spec_state());
            volume_scaled(raw, g.spec_volume() as int)
        },
        None => 0,
    }
}

/// What mixing does to a channel: its voice takes one playback step;
/// everything else stays.
pub open spec fn spec_mixed_channel(ch0: Channel, ch: Channel) -> bool {
    &&& ch.last_sample == ch0.last_sample
    &&& ch.last_note == ch0.last_note
    &&& ch.volume_slide == ch0.volume_slide
    &&& match (ch0.generator, ch.generator) {
        (None, None) => true,
        (Some(g0), Some(g)) => {
            let (st2, raw) = spec_playback_step(
                g0.spec_signal(),
                g0.spec_repeat(),
                g0.spec_state(),
            );
            &&& g.spec_signal() == g0.spec_signal()
            &&& g.spec_repeat() == g0.spec_repeat()
            &&& g.spec_volume() == g0.spec_volume()
            &&& g.spec_state() == st2
        },
        _ => false,
    }
}

/// The mix of the first `c` channels: each channel's contribution
/// attenuated by `3 / 10` (truncated), then summed.
pub open spec fn spec_mix_sum(chs: Seq<Channel>, c: int) -> int
    decreases c,
{
    if c <= 0 {
        0
    } else {
        spec_mix_sum(chs, c - 1) + tdiv(spec_channel_out(chs[c - 1]) * 3, 10)
    }
}

/// The position after a division expires: an armed break jumps to its row
/// (row 0 when the target is past the 64 rows) in the next program entry;
/// row 63 rolls over to row 0 of the next program entry; anything else just
/// moves one row down. The program wraps to its start at its end, and the
/// pattern is the new program entry's whenever the program advanced.
/// Returns (program, pattern, row).
pub open spec fn spec_next_position(
    m: Module,
    program: int,
    pattern: int,
    row: int,
    brk: Option<usize>,
) -> (int, int, int) {
    let next = match brk {
        Some(d) => (if d <= 63 {
            d as int
        } else {
            0
        }, true),
        None => if row >= 63 {
            (0, true)
        } else {
            (row + 1, false)
        },
    };
    if next.1 {
        let p2: int = if program + 1 >= m.program.len() {
            0
        } else {
            program + 1
        };
        (p2, m.program[p2] as int, next.0)
    } else {
        (program, pattern, next.0)
    }
}

/// The tick/division sequencer over one decoded module.
pub struct Player {
    pub playing: bool,
    pub module: Module,
    pub program: usize,
    pub pattern: usize,
    pub row: usize,
    pub tick: usize,
    pub native_tpd: u16,
    pub native_bpm: u16,
    pub division_left: usize,
    pub tick_left: usize,
    pub sample_rate: u32,
    pub incoming_break: Option<usize>,
    pub channels: Vec<Channel>,
}

/// The facts the player preserves across every step: a well-formed module,
/// a position inside it, timing parameters in the ranges the effects keep
/// them in, a sane sample rate, and four channels whose remembered notes
/// are playable and whose voices play normalized signals.
pub open spec fn spec_player_wf(p: Player) -> bool {
    &&& spec_module_wf(p.module)
    &&& p.channels.len() == 4
    &&& 1 <= p.native_tpd <= 32
    &&& 1 <= p.native_bpm <= 255
    &&& p.pattern < p.module.patterns.len()
    &&& p.row < 64
    &&& p.program < p.module.program.len()
    &&& 1 <= p.sample_rate <= 1000000
    &&& forall|i: int|
        0 <= i < 4 ==> ((#[trigger] p.channels[i]).last_note matches Some(n) ==> n.spec_freq()
            > 0)
    &&& forall|i: int|
        0 <= i < 4 ==> ((#[trigger] p.channels[i]).generator matches Some(g) ==> forall|k: int|
            0 <= k < g.spec_signal().len() ==> -FIXED_ONE <= (#[trigger] g.spec_signal()[k])
                <= FIXED_ONE)
}

fn division_len_samples(bpm: u16, tpd: u16, rate: u32) -> (r: usize)
    requires
        1 <= bpm,
        tpd <= 32,
        rate <= 1000000,
    ensures
        r == spec_division_len(bpm as int, tpd as int, rate as int),
        r <= 80000000,
{
    proof {
        assert(0 <= 60 * (rate as int) * (tpd as int) <= 60 * 1000000 * 32) by (nonlinear_arith)
            requires
                rate as int <= 1000000,
                tpd as int <= 32,
                0 <= rate as int,
                0 <= tpd as int,
        ;
    }
    let num: u64 = 60 * (rate as u64) * (tpd as u64);
    let den: u64 = 24 * (bpm as u64);
    let q: u64 = num / den;
    proof {
        vstd::arithmetic::div_mod::lemma_div_is_ordered_by_denominator(num as int, 24, den as int);
        vstd::arithmetic::div_mod::lemma_div_is_ordered(num as int, 1920000000, 24);
    }
    q as usize
}

fn tick_len_samples(bpm: u16, rate: u32) -> (r: usize)
    requires
        1 <= bpm,
        rate <= 1000000,
    ensures
        r == spec_tick_len(bpm as int, rate as int),
        r <= 80000000,
{
    let num: u64 = 60 * (rate as u64);
    let den: u64 = 24 * (bpm as u64);
    let q: u64 = num / den;
    proof {
        vstd::arithmetic::div_mod::lemma_div_is_ordered_by_denominator(num as int, 24, den as int);
        vstd::arithmetic::div_mod::lemma_div_is_ordered(num as int, 60000000, 24);
    }
    q as usize
}

/// A channel whose voice plays a normalized signal contributes at most
/// `FIXED_ONE * 255 / 64` in magnitude.
pub proof fn lemma_channel_out_bound(ch: Channel)
    requires
        ch.generator matches Some(g) ==> forall|k: int|
            0 <= k < g.spec_signal().len() ==> -FIXED_ONE <= (#[trigger] g.spec_signal()[k])
                <= FIXED_ONE,
    ensures
        -130050 <= spec_channel_out(ch) <= 130050,
{
    match ch.generator {
        Some(g) => {
            let (st2, raw) = spec_playback_step(g.spec_signal(), g.spec_repeat(), g.spec_state());
            assert(-FIXED_ONE <= raw <= FIXED_ONE);
            let v = g.spec_volume() as int;
            assert(raw * v <= 32640 * 255 && -(32640 * 255) <= raw * v) by (nonlinear_arith)
                requires
                    -32640 <= raw <= 32640,
                    0 <= v <= 255,
            ;
            crate::dsp::lemma_tdiv_mono(raw * v, 32640int * 255, 64);
            crate::dsp::lemma_tdiv_mono(-(32640int * 255), raw * v, 64);
        },
        None => {},
    }
}

pub(crate) fn tdiv10(p: i64) -> (r: i64)
    requires
        -0x2000000000000000 <= p <= 0x2000000000000000,
    ensures
        r == tdiv(p as int, 10),
{
    if p >= 0 {
        (((p as u64)) / 10) as i64
    } else {
        let q: u64 = ((-p) as u64) / 10;
        -(q as i64)
    }
}

impl Player {
    /// Load the current row: trigger the cells' voices, restart the tick
    /// counter, clear the armed slides, and apply the row's entry effects.
    fn load_row(&mut self)
        requires
            spec_player_wf(*old(self)),
        ensures
            spec_player_wf(*final(self)),
            final(self).playing == old(self).playing,
            final(self).module == old(self).module,
            final(self).program == old(self).program,
            final(self).pattern == old(self).pattern,
            final(self).row == old(self).row,
            final(self).division_left == old(self).division_left,
            final(self).tick_left == old(self).tick_left,
            final(self).sample_rate == old(self).sample_rate,
            final(self).tick == 0,
            final(self).native_bpm == spec_row_bpm(
                old(self).module,
                old(self).pattern as int,
                old(self).row as int,
                4,
                old(self).native_bpm,
            ),
            final(self).native_tpd == spec_row_tpd(
                old(self).module,
                old(self).pattern as int,
                old(self).row as int,
                4,
                old(self).native_tpd,
            ),
            final(self).incoming_break == spec_row_break(
                old(self).module,
                old(self).pattern as int,
                old(self).row as int,
                4,
                old(self).incoming_break,
            ),
            final(self).channels.len() == 4,
            forall|i: int|
                0 <= i < 4 ==> spec_channel_after_row(
                    old(self).module,
                    old(self).pattern as int,
                    old(self).row as int,
                    i,
                    old(self).channels[i],
                    #[trigger] final(self).channels[i],
                    old(self).sample_rate as int,
                ),
    {
        let ghost m = self.module;
        let ghost pat = self.pattern as int;
        let ghost rw = self.row as int;
        let ghost rate = self.sample_rate as int;
        let ghost chs0 = self.channels@;

        // Trigger pass: resolve each cell's note and sample and start a
        // fresh voice where both resolve.
        let mut i: usize = 0;
        while i < 4
            invariant
                i <= 4,
                spec_player_wf(*self),
                self.playing == old(self).playing,
                self.module == old(self).module,
                self.program == old(self).program,
                self.pattern == old(self).pattern,
                self.row == old(self).row,
                self.division_left == old(self).division_left,
                self.tick_left == old(self).tick_left,
                self.sample_rate == old(self).sample_rate,
                self.tick == old(self).tick,
                self.native_bpm == old(self).native_bpm,
                self.native_tpd == old(self).native_tpd,
                self.incoming_break == old(self).incoming_break,
                self.channels.len() == 4,
                m == self.module,
                pat == self.pattern as int,
                rw == self.row as int,
                rate == self.sample_rate as int,
                chs0 == old(self).channels@,
                forall|k: int| i <= k < 4 ==> #[trigger] self.channels[k] == chs0[k],
                forall|k: int|
                    0 <= k < i ==> spec_channel_loaded(
                        m,
                        pat,
                        rw,
                        k,
                        chs0[k],
                        #[trigger] self.channels[k],
                        rate,
                    ),
            decreases 4 - i,
        {
            let cell: Data = self.module.patterns[self.pattern].rows[self.row].channels[i];
            let period = cell.period();
            let snum = cell.sample_number();
            if !(period == 0 && snum == 0) {
                let note_opt: Option<Note> = if period != 0 {
                    proof {
                        vstd::arithmetic::div_mod::lemma_div_is_ordered_by_denominator(
                            1117600,
                            period as int,
                            65535,
                        );
                    }
                    Some(cell.note())
                } else {
                    self.channels[i].last_note
                };
                if let Some(note) = note_opt {
                    let samp: usize = if snum != 0 {
                        snum as usize
                    } else {
                        match self.channels[i].last_sample {
                            Some(s) => s,
                            None => 0,
                        }
                    };
                    if 1 <= samp && samp <= 31 {
                        let mut sp = self.module.samples[samp - 1].play(note, self.sample_rate);
                        sp.trigger_start();
                        proof {
                            crate::dsp::lemma_converted_bounded(
                                resampled(
                                    m.samples[samp - 1].data@,
                                    spec_play_len(
                                        m.samples[samp - 1].data@.len() as int,
                                        rate,
                                        note.spec_freq() as int,
                                    ) as nat,
                                ),
                            );
                        }
                        let ch = vstd::std_specs::vec::vec_index_mut(&mut self.channels, i);
                        ch.generator = Some(sp);
                        ch.last_sample = Some(samp);
                        ch.last_note = Some(note);
                    }
                }
            }
            i = i + 1;
        }

        self.tick = 0;
        let ghost chs1 = self.channels@;

        // Entry-effect pass: clear the armed slide and dispatch the cell's
        // effect on each channel in turn.
        let mut j: usize = 0;
        while j < 4
            invariant
                j <= 4,
                spec_player_wf(*self),
                self.playing == old(self).playing,
                self.module == old(self).module,
                self.program == old(self).program,
                self.pattern == old(self).pattern,
                self.row == old(self).row,
                self.division_left == old(self).division_left,
                self.tick_left == old(self).tick_left,
                self.sample_rate == old(self).sample_rate,
                self.tick == 0,
                self.channels.len() == 4,
                m == self.module,
                pat == self.pattern as int,
                rw == self.row as int,
                rate == self.sample_rate as int,
                chs0 == old(self).channels@,
                chs1.len() == 4,
                self.native_bpm == spec_row_bpm(m, pat, rw, j as int, old(self).native_bpm),
                self.native_tpd == spec_row_tpd(m, pat, rw, j as int, old(self).native_tpd),
                self.incoming_break == spec_row_break(
                    m,
                    pat,
                    rw,
                    j as int,
                    old(self).incoming_break,
                ),
                forall|k: int| j <= k < 4 ==> #[trigger] self.channels[k] == chs1[k],
                forall|k: int|
                    0 <= k < 4 ==> spec_channel_loaded(m, pat, rw, k, chs0[k], chs1[k], rate),
                forall|k: int|
                    0 <= k < j ==> spec_channel_after_row(
                        m,
                        pat,
                        rw,
                        k,
                        chs0[k],
                        #[trigger] self.channels[k],
                        rate,
                    ),
            decreases 4 - j,
        {
            let cell: Data = self.module.patterns[self.pattern].rows[self.row].channels[j];
            let eff = cell.effect();
            proof {
                crate::promod::lemma_effect_bounds(spec_effect_bits(cell.0) as u16);
            }
            {
                let ch = vstd::std_specs::vec::vec_index_mut(&mut self.channels, j);
                ch.volume_slide = None;
            }
            match eff {
                Effect::VolumeSlide { up, down } => {
                    let ch = vstd::std_specs::vec::vec_index_mut(&mut self.channels, j);
                    if up == 0 && down != 0 {
                        ch.volume_slide = Some(-(down as i8));
                    }
                    if down == 0 && up != 0 {
                        ch.volume_slide = Some(up as i8);
                    }
                },
                Effect::PatternBreak { division } => {
                    self.incoming_break = Some(division);
                },
                Effect::SetBeatsPerMinute { bpm } => {
                    self.native_bpm = bpm;
                },
                Effect::SetTicksPerDivision { tpd } => {
                    self.native_tpd = tpd;
                },
                Effect::SetVolume { volume } => {
                    let ch = vstd::std_specs::vec::vec_index_mut(&mut self.channels, j);
                    if let Some(g) = &mut ch.generator {
                        let v: u8 = if volume > 64 {
                            64
                        } else {
                            volume as u8
                        };
                        g.set_volume(v);
                    }
                },
                Effect::FineVolumeSlideUp { up } => {
                    let ch = vstd::std_specs::vec::vec_index_mut(&mut self.channels, j);
                    if let Some(g) = &mut ch.generator {
                        let v0 = g.volume();
                        let nv: u16 = v0 as u16 + up as u16;
                        let v: u8 = if nv > 64 {
                            64
                        } else {
                            nv as u8
                        };
                        g.set_volume(v);
                    }
                },
                Effect::FineVolumeSlideDown { down } => {
                    let ch = vstd::std_specs::vec::vec_index_mut(&mut self.channels, j);
                    if let Some(g) = &mut ch.generator {
                        let v0 = g.volume();
                        let v: u8 = if down > v0 {
                            0
                        } else {
                            v0 - down
                        };
                        g.set_volume(v);
                    }
                },
                Effect::Unknown => {},
            }
            j = j + 1;
        }
    }
}

impl Player {
    /// A fresh, paused player over `module`, positioned on row 0 of pattern
    /// 0 with the native timing defaults (125 beats per minute, 6 ticks per
    /// division), its counters reset and the first row loaded. The output
    /// rate is capped at one million samples per second so that every
    /// timing computation stays in machine range.
    pub fn new(module: Module, sample_rate: u32) -> (r: Player)
        requires
            spec_module_wf(module),
            1 <= sample_rate <= 1000000,
        ensures
            spec_player_wf(r),
            !r.playing,
            r.module == module,
            r.program == 0,
            r.pattern == 0,
            r.row == 0,
            r.tick == 0,
            r.sample_rate == sample_rate,
            r.division_left == spec_division_len(125, 6, sample_rate as int),
            r.tick_left == spec_tick_len(125, sample_rate as int),
            r.native_bpm == spec_row_bpm(module, 0, 0, 4, 125),
            r.native_tpd == spec_row_tpd(module, 0, 0, 4, 6),
            r.incoming_break == spec_row_break(module, 0, 0, 4, None),
            r.channels.len() == 4,
            forall|i: int|
                0 <= i < 4 ==> spec_channel_after_row(
                    module,
                    0,
                    0,
                    i,
                    Channel { generator: None, last_sample: None, last_note: None, volume_slide: None },
                    #[trigger] r.channels[i],
                    sample_rate as int,
                ),
    {
        let mut channels: Vec<Channel> = Vec::new();
        channels.push(Channel::new());
        channels.push(Channel::new());
        channels.push(Channel::new());
        channels.push(Channel::new());
        let mut res = Player {
            playing: false,
            module,
            program: 0,
            pattern: 0,
            row: 0,
            tick: 0,
            native_tpd: 6,
            native_bpm: 125,
            division_left: 0,
            tick_left: 0,
            sample_rate,
            incoming_break: None,
            channels,
        };
        res.division_left = division_len_samples(res.native_bpm, res.native_tpd, res.sample_rate);
        res.tick_left = tick_len_samples(res.native_bpm, res.sample_rate);
        proof {
            assert(res.channels[0] == Channel {
                generator: None,
                last_sample: None,
                last_note: None,
                volume_slide: None,
            });
        }
        res.load_row();
        res
    }

    /// Advance to the next division: reset the division countdown from the
    /// current timing, move to [`spec_next_position`] (consuming any armed
    /// break), and load the new row.
    fn next_division(&mut self)
        requires
            spec_player_wf(*old(self)),
        ensures
            spec_player_wf(*final(self)),
            final(self).playing == old(self).playing,
            final(self).module == old(self).module,
            final(self).sample_rate == old(self).sample_rate,
            final(self).tick_left == old(self).tick_left,
            final(self).tick == 0,
            final(self).division_left == spec_division_len(
                old(self).native_bpm as int,
                old(self).native_tpd as int,
                old(self).sample_rate as int,
            ),
            ({
                let (p2, pat2, r2) = spec_next_position(
                    old(self).module,
                    old(self).program as int,
                    old(self).pattern as int,
                    old(self).row as int,
                    old(self).incoming_break,
                );
                &&& final(self).program == p2
                &&& final(self).pattern == pat2
                &&& final(self).row == r2
                &&& final(self).native_bpm == spec_row_bpm(
                    old(self).module,
                    pat2,
                    r2,
                    4,
                    old(self).native_bpm,
                )
                &&& final(self).native_tpd == spec_row_tpd(
                    old(self).module,
                    pat2,
                    r2,
                    4,
                    old(self).native_tpd,
                )
                &&& final(self).incoming_break == spec_row_break(
                    old(self).module,
                    pat2,
                    r2,
                    4,
                    None,
                )
                &&& final(self).channels.len() == 4
                &&& forall|i: int|
                    0 <= i < 4 ==> spec_channel_after_row(
                        old(self).module,
                        pat2,
                        r2,
                        i,
                        old(self).channels[i],
                        #[trigger] final(self).channels[i],
                        old(self).sample_rate as int,
                    )
            }),
    {
        let dl = division_len_samples(self.native_bpm, self.native_tpd, self.sample_rate);
        self.division_left = dl;
        let (next_row, advance): (usize, bool) = match self.incoming_break {
            Some(d) => {
                self.incoming_break = None;
                (
                    if d <= 63 {
                        d
                    } else {
                        0
                    },
                    true,
                )
            },
            None => {
                if self.row >= 63 {
                    (0, true)
                } else {
                    (self.row + 1, false)
                }
            },
        };
        self.row = next_row;
        if advance {
            self.program = if self.program + 1 >= self.module.program.len() {
                0
            } else {
                self.program + 1
            };
            self.pattern = self.module.program[self.program] as usize;
        }
        self.load_row();
    }

    /// Advance to the next tick: reset the tick countdown from the current
    /// tempo and, on every tick but the row's entry tick, move each armed
    /// slide's voice one volume step.
    fn next_tick(&mut self)
        requires
            spec_player_wf(*old(self)),
        ensures
            spec_player_wf(*final(self)),
            final(self).playing == old(self).playing,
            final(self).module == old(self).module,
            final(self).program == old(self).program,
            final(self).pattern == old(self).pattern,
            final(self).row == old(self).row,
            final(self).division_left == old(self).division_left,
            final(self).sample_rate == old(self).sample_rate,
            final(self).native_bpm == old(self).native_bpm,
            final(self).native_tpd == old(self).native_tpd,
            final(self).incoming_break == old(self).incoming_break,
            final(self).tick_left == spec_tick_len(
                old(self).native_bpm as int,
                old(self).sample_rate as int,
            ),
            final(self).tick == spec_inc(old(self).tick),
            final(self).channels.len() == 4,
            forall|i: int|
                0 <= i < 4 ==> spec_tick_channel(
                    old(self).tick != 0,
                    old(self).channels[i],
                    #[trigger] final(self).channels[i],
                ),
    {
        self.tick_left = tick_len_samples(self.native_bpm, self.sample_rate);
        let ghost chs0 = self.channels@;
        if self.tick != 0 {
            let mut i: usize = 0;
            while i < 4
                invariant
                    i <= 4,
                    spec_player_wf(*self),
                    self.playing == old(self).playing,
                    self.module == old(self).module,
                    self.program == old(self).program,
                    self.pattern == old(self).pattern,
                    self.row == old(self).row,
                    self.division_left == old(self).division_left,
                    self.sample_rate == old(self).sample_rate,
                    self.native_bpm == old(self).native_bpm,
                    self.native_tpd == old(self).native_tpd,
                    self.incoming_break == old(self).incoming_break,
                    self.tick == old(self).tick,
                    self.tick_left == spec_tick_len(
                        old(self).native_bpm as int,
                        old(self).sample_rate as int,
                    ),
                    self.channels.len() == 4,
                    chs0 == old(self).channels@,
                    forall|k: int| i <= k < 4 ==> #[trigger] self.channels[k] == chs0[k],
                    forall|k: int|
                        0 <= k < i ==> spec_tick_channel(
                            true,
                            chs0[k],
                            #[trigger] self.channels[k],
                        ),
                decreases 4 - i,
            {
                let ch = vstd::std_specs::vec::vec_index_mut(&mut self.channels, i);
                if let Some(slide) = ch.volume_slide {
                    if let Some(g) = &mut ch.generator {
                        let v0 = g.volume();
                        let v1: i32 = v0 as i32 + slide as i32;
                        let v2: u8 = if v1 > 64 {
                            64
                        } else if v1 < 0 {
                            0
                        } else {
                            v1 as u8
                        };
                        g.set_volume(v2);
                    }
                }
                i = i + 1;
            }
        }
        self.tick = if self.tick < usize::MAX {
            self.tick + 1
        } else {
            self.tick
        };
    }
}

impl Generator for Player {
    open spec fn gen_ok(&self) -> bool {
        spec_player_wf(*self)
    }

    /// Produce one output sample.
    ///
    /// A paused player returns silence and does not move. Otherwise the two
    /// countdowns tick down (expiring into a new tick or a new division, in
    /// that order), and the four channels are advanced one sample each and
    /// mixed at `3 / 10` weight. The channel sequences `chs1` (after the
    /// tick's slides) and `chs2` (after any row change) name the
    /// intermediate states the mix reads.
    fn next(&mut self) -> (r: i32)
        ensures
            !old(self).playing ==> *final(self) == *old(self) && r == 0,
            old(self).playing ==> {
                &&& final(self).playing
                &&& final(self).module == old(self).module
                &&& final(self).sample_rate == old(self).sample_rate
                &&& final(self).tick_left == (if old(self).tick_left == 0 {
                    spec_tick_len(old(self).native_bpm as int, old(self).sample_rate as int)
                } else {
                    (old(self).tick_left - 1) as int
                })
                &&& final(self).tick == (if old(self).division_left == 0 {
                    0int
                } else if old(self).tick_left == 0 {
                    spec_inc(old(self).tick) as int
                } else {
                    old(self).tick as int
                })
                &&& (if old(self).division_left == 0 {
                    let (p2, pat2, r2) = spec_next_position(
                        old(self).module,
                        old(self).program as int,
                        old(self).pattern as int,
                        old(self).row as int,
                        old(self).incoming_break,
                    );
                    &&& final(self).program == p2
                    &&& final(self).pattern == pat2
                    &&& final(self).row == r2
                    &&& final(self).division_left == spec_division_len(
                        old(self).native_bpm as int,
                        old(self).native_tpd as int,
                        old(self).sample_rate as int,
                    )
                    &&& final(self).native_bpm == spec_row_bpm(
                        old(self).module,
                        pat2,
                        r2,
                        4,
                        old(self).native_bpm,
                    )
                    &&& final(self).native_tpd == spec_row_tpd(
                        old(self).module,
                        pat2,
                        r2,
                        4,
                        old(self).native_tpd,
                    )
                    &&& final(self).incoming_break == spec_row_break(
                        old(self).module,
                        pat2,
                        r2,
                        4,
                        None,
                    )
                } else {
                    &&& final(self).program == old(self).program
                    &&& final(self).pattern == old(self).pattern
                    &&& final(self).row == old(self).row
                    &&& final(self).division_left == old(self).division_left - 1
                    &&& final(self).native_bpm == old(self).native_bpm
                    &&& final(self).native_tpd == old(self).native_tpd
                    &&& final(self).incoming_break == old(self).incoming_break
                })
                &&& final(self).channels.len() == 4
                &&& exists|chs1: Seq<Channel>, chs2: Seq<Channel>|
                    {
                        &&& chs1.len() == 4
                        &&& chs2.len() == 4
                        &&& (forall|i: int|
                            0 <= i < 4 ==> spec_tick_channel(
                                old(self).tick_left == 0 && old(self).tick != 0,
                                old(self).channels[i],
                                #[trigger] chs1[i],
                            ))
                        &&& (if old(self).division_left == 0 {
                            let (p2, pat2, r2) = spec_next_position(
                                old(self).module,
                                old(self).program as int,
                                old(self).pattern as int,
                                old(self).row as int,
                                old(self).incoming_break,
                            );
                            forall|i: int|
                                0 <= i < 4 ==> spec_channel_after_row(
                                    old(self).module,
                                    pat2,
                                    r2,
                                    i,
                                    chs1[i],
                                    #[trigger] chs2[i],
                                    old(self).sample_rate as int,
                                )
                        } else {
                            chs2 == chs1
                        })
                        &&& (forall|i: int|
                            0 <= i < 4 ==> spec_mixed_channel(
                                chs2[i],
                                #[trigger] final(self).channels[i],
                            ))
                        &&& r == spec_mix_sum(chs2, 4)
                    }
            },
    {
        if !self.playing {
            return 0;
        }
        if self.tick_left == 0 {
            self.next_tick();
        } else {
            self.tick_left = self.tick_left - 1;
        }
        let ghost chs1 = self.channels@;
        if self.division_left == 0 {
            self.next_division();
        } else {
            self.division_left = self.division_left - 1;
        }
        let ghost mid = *self;
        let ghost chs2 = self.channels@;
        let mut acc: i64 = 0;
        let mut i: usize = 0;
        while i < 4
            invariant
                i <= 4,
                *self == (Player { channels: self.channels, ..mid }),
                self.channels.len() == 4,
                chs2.len() == 4,
                chs2 == mid.channels@,
                spec_player_wf(mid),
                forall|k: int| i <= k < 4 ==> #[trigger] self.channels[k] == chs2[k],
                forall|k: int|
                    0 <= k < i ==> spec_mixed_channel(chs2[k], #[trigger] self.channels[k]),
                acc == spec_mix_sum(chs2, i as int),
                -600000 * i <= acc <= 600000 * i,
            decreases 4 - i,
        {
            proof {
                lemma_channel_out_bound(chs2[i as int]);
            }
            let ch = vstd::std_specs::vec::vec_index_mut(&mut self.channels, i);
            let out: i32 = match &mut ch.generator {
                Some(g) => g.next(),
                None => 0,
            };
            let term: i64 = tdiv10((out as i64) * 3);
            proof {
                crate::dsp::lemma_tdiv_mono((out as i64) * 3 as int, 600000, 10);
                crate::dsp::lemma_tdiv_mono(-600000, (out as i64) * 3 as int, 10);
            }
            acc = acc + term;
            i = i + 1;
        }
        proof {
            assert(spec_player_wf(*self));
        }
        acc as i32
    }
}

} // verus!
