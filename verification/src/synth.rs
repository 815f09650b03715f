//! Phase-driven periodic waveform generators.
//!
//! A waveform is rendered from a phase counter in subunits of
//! `1 / (10 * sample_rate)` of the waveform's own cycle: the counter runs
//! over `[0, 10 * sample_rate)`, standing for the fraction of the cycle
//! already played, and advances by the tone's deci-hertz frequency each
//! output sample (so it completes `decihz / 10` cycles per second of
//! output). The sine shape is the classic rational approximation
//! `16 t (h - t) / (5 h^2 - 4 t (h - t))` of `sin(pi t / h)` on a half
//! cycle `h`, exact at the ends and the peak; the square shape compares the
//! phase against the half cycle.

use vstd::prelude::*;
use crate::dsp::{FIXED_ONE, tdiv};
use crate::sound::Generator;

verus! {

/// A sine tone at a fixed frequency in deci-hertz.
#[derive(Debug, Clone, Copy)]
pub struct SineWave {
    pub decihz: u32,
}

impl SineWave {
    pub fn new(decihz: u32) -> (r: SineWave)
        ensures
            r.decihz == decihz,
    {
        SineWave { decihz }
    }
}

/// A square tone at a fixed frequency in deci-hertz.
#[derive(Debug, Clone, Copy)]
pub struct SquareWave {
    pub decihz: u32,
}

impl SquareWave {
    pub fn new(decihz: u32) -> (r: SquareWave)
        ensures
            r.decihz == decihz,
    {
        SquareWave { decihz }
    }
}

/// The waveform shapes the synthesizer offers.
#[derive(PartialEq, Eq, Structural, Debug, Clone, Copy)]
pub enum WaveformKind {
    Sine,
    Square,
}

/// A closed tagged union over the waveform shapes.
#[derive(Debug, Clone, Copy)]
pub enum AnyWaveform {
    Sine(SineWave),
    Square(SquareWave),
}

impl WaveformKind {
    /// A waveform of this kind at the given frequency.
    pub fn new(&self, decihz: u32) -> (r: AnyWaveform)
        ensures
            *self == WaveformKind::Sine ==> r == AnyWaveform::Sine(SineWave { decihz }),
            *self == WaveformKind::Square ==> r == AnyWaveform::Square(SquareWave { decihz }),
    {
        match self {
            WaveformKind::Sine => AnyWaveform::Sine(SineWave::new(decihz)),
            WaveformKind::Square => AnyWaveform::Square(SquareWave::new(decihz)),
        }
    }
}

impl AnyWaveform {
    /// The waveform's frequency in deci-hertz.
    pub open spec fn spec_decihz(&self) -> u32 {
        match self {
            AnyWaveform::Sine(s) => s.decihz,
            AnyWaveform::Square(s) => s.decihz,
        }
    }

    pub fn decihz(&self) -> (r: u32)
        ensures
            r == self.spec_decihz(),
    {
        match self {
            AnyWaveform::Sine(s) => s.decihz,
            AnyWaveform::Square(s) => s.decihz,
        }
    }
}

/// The rational half-cycle sine approximation at `t` of `half`, scaled to
/// full scale: `FIXED_ONE * 16 u / (5 half^2 - 4 u)` with `u = t (half - t)`.
pub open spec fn spec_half_sine(t: int, half: int) -> int {
    let u = t * (half - t);
    (FIXED_ONE * 16 * u) / (5 * half * half - 4 * u)
}

/// The sine shape at phase `p` of a cycle of `2 * half` subunits: the
/// half-cycle approximation, negated on the second half.
pub open spec fn spec_sine_render(p: int, half: int) -> int {
    if p < half {
        spec_half_sine(p, half)
    } else {
        -spec_half_sine(p - half, half)
    }
}

/// The square shape at phase `p` of a cycle of `2 * half` subunits:
/// full scale positive on the second half, negative on the first.
pub open spec fn spec_square_render(p: int, half: int) -> int {
    if p >= half {
        FIXED_ONE as int
    } else {
        -FIXED_ONE as int
    }
}

/// The value a waveform renders at phase `p` of a cycle of `2 * half`.
pub open spec fn spec_render(w: AnyWaveform, p: int, half: int) -> int {
    match w {
        AnyWaveform::Sine(_) => spec_sine_render(p, half),
        AnyWaveform::Square(_) => spec_square_render(p, half),
    }
}

/// The half-cycle sine stays within full scale on `[0, half)`.
pub proof fn lemma_half_sine_bounds(t: int, half: int)
    requires
        0 <= t < half,
        0 < half,
    ensures
        0 <= spec_half_sine(t, half) <= FIXED_ONE,
{
    let u = t * (half - t);
    let den = 5 * half * half - 4 * u;
    assert(0 <= t * (half - t) && 4 * (t * (half - t)) <= half * half) by (nonlinear_arith)
        requires
            0 <= t,
            t < half,
    ;
    assert((5 * half) * half == 5 * (half * half) && half * half > 0) by (nonlinear_arith)
        requires
            0 < half,
    ;
    assert(FIXED_ONE * 16 * u == (16 * u) * 32640 && 0 <= 16 * u) by (nonlinear_arith)
        requires
            0 <= u,
    ;
    assert(16 * u <= den);
    vstd::arithmetic::div_mod::lemma_div_pos_is_pos(FIXED_ONE * 16 * u, den);
    vstd::arithmetic::mul::lemma_mul_inequality(16 * u, den, 32640);
    vstd::arithmetic::div_mod::lemma_multiply_divide_le(FIXED_ONE * 16 * u, den, FIXED_ONE as int);
}

/// Evaluate the half-cycle sine.
fn half_sine(t: u32, half: u32) -> (r: i32)
    requires
        t < half,
        0 < half <= 5000000,
    ensures
        r == spec_half_sine(t as int, half as int),
        0 <= r <= FIXED_ONE,
{
    proof {
        let ti = t as int;
        let hi = half as int;
        assert(0 <= ti * (hi - ti) && 4 * (ti * (hi - ti)) <= hi * hi && ti * (hi - ti)
            <= 6250000000000) by (nonlinear_arith)
            requires
                0 <= ti,
                ti < hi,
                hi <= 5000000,
        ;
        assert((5 * hi) * hi == 5 * (hi * hi) && hi * hi > 0 && hi * hi <= 25000000000000)
            by (nonlinear_arith)
            requires
                0 < hi,
                hi <= 5000000,
        ;
        assert(FIXED_ONE as int * 16 * (ti * (hi - ti)) == 522240 * (ti * (hi - ti)) && 0 <= 522240
            * (ti * (hi - ti)) <= 522240 * 6250000000000) by (nonlinear_arith)
            requires
                0 <= ti * (hi - ti) <= 6250000000000,
        ;
        lemma_half_sine_bounds(ti, hi);
    }
    let u: u64 = (t as u64) * ((half - t) as u64);
    let num: u64 = (FIXED_ONE as u64) * 16 * u;
    let den: u64 = 5 * (half as u64) * (half as u64) - 4 * u;
    (num / den) as i32
}

/// A phase accumulator rendering a waveform at a fixed output rate, with a
/// fixed 9/10 volume.
pub struct Oscillator {
    pub sample_rate: u32,
    pub phase: u32,
    pub waveform: AnyWaveform,
}

/// The oscillator's phase stays inside one cycle and its rate is sane.
pub open spec fn spec_osc_ok(o: Oscillator) -> bool {
    &&& 1 <= o.sample_rate <= 1000000
    &&& o.phase < 10 * o.sample_rate
}

/// The sample an oscillator yields at its current phase: the waveform's
/// value scaled by `9 / 10` (truncated).
pub open spec fn spec_osc_out(o: Oscillator) -> int {
    tdiv(spec_render(o.waveform, o.phase as int, 5 * o.sample_rate as int) * 9, 10)
}

impl Oscillator {
    /// A new oscillator at phase zero.
    pub fn new(sample_rate: u32, w: AnyWaveform) -> (r: Oscillator)
        requires
            1 <= sample_rate <= 1000000,
        ensures
            r == (Oscillator { sample_rate, phase: 0, waveform: w }),
            spec_osc_ok(r),
    {
        Oscillator { sample_rate, phase: 0, waveform: w }
    }
}

impl Generator for Oscillator {
    open spec fn gen_ok(&self) -> bool {
        spec_osc_ok(*self)
    }

    /// Render the current phase, then advance the phase by the tone's
    /// deci-hertz frequency, modulo the cycle.
    fn next(&mut self) -> (r: i32)
        ensures
            r == spec_osc_out(*old(self)),
            -FIXED_ONE <= r <= FIXED_ONE,
            final(self).sample_rate == old(self).sample_rate,
            final(self).waveform == old(self).waveform,
            final(self).phase == (old(self).phase + old(self).waveform.spec_decihz()) as int % (10
                * old(self).sample_rate as int),
    {
        proof {
            // Unfold the trait precondition for this implementation.
            assert(spec_osc_ok(*old(self))) by {
                assert(old(self).gen_ok());
            }
        }
        let half: u32 = 5 * self.sample_rate;
        let raw: i32 = match &self.waveform {
            AnyWaveform::Sine(_) => {
                if self.phase < half {
                    half_sine(self.phase, half)
                } else {
                    -half_sine(self.phase - half, half)
                }
            },
            AnyWaveform::Square(_) => {
                if self.phase >= half {
                    FIXED_ONE
                } else {
                    -FIXED_ONE
                }
            },
        };
        let out: i32 = if raw >= 0 {
            (((raw as u32) * 9) / 10) as i32
        } else {
            -((((-raw) as u32) * 9 / 10) as i32)
        };
        proof {
            crate::dsp::lemma_tdiv_mono(raw as int * 9, 32640int * 9, 10);
            crate::dsp::lemma_tdiv_mono(-(32640int * 9), raw as int * 9, 10);
        }
        let dhz = self.waveform.decihz();
        let next_phase: u64 = ((self.phase as u64) + (dhz as u64)) % ((10 * self.sample_rate)
            as u64);
        self.phase = next_phase as u32;
        out
    }
}

} // verus!
