//! Envelopes, enveloped generators, and the polyphonic voice pool.

use vstd::prelude::*;
use vstd::arithmetic::div_mod::{lemma_div_is_ordered, lemma_div_pos_is_pos, lemma_multiply_divide_le};
use vstd::arithmetic::mul::{lemma_mul_inequality, lemma_mul_nonnegative};
use crate::dsp::{FIXED_ONE, tdiv};
use crate::notes::{Note, NoteApprox};
use crate::playback::{SamplePlayback, ModSignal};
use crate::promod::Sample;
use crate::synth::{Oscillator, WaveformKind, AnyWaveform, spec_osc_out};

verus! {

/// A source of one fixed-point sample per call.
pub trait Generator {
    /// The condition under which the generator may be advanced; advancing
    /// preserves it.
    spec fn gen_ok(&self) -> bool;

    fn next(&mut self) -> (r: i32)
        requires
            old(self).gen_ok(),
        ensures
            final(self).gen_ok(),
    ;
}

/// A generator with note-on / note-off edges.
pub trait Enveloped: Generator {
    fn trigger_start(&mut self);

    fn trigger_end(&mut self);
}

/// The envelope phases.
#[derive(PartialEq, Eq, Structural, Debug, Clone, Copy)]
pub enum ADSRState {
    Inactive,
    AttackDecay,
    Sustain,
    Release,
}

/// Envelope parameters: attack, decay and release lengths in output
/// samples, and the sustain level as a fixed-point amplitude in
/// `0..=FIXED_ONE`.
#[derive(Debug, Clone, Copy)]
pub struct ADSRParams {
    pub a: u32,
    pub d: u32,
    pub s_level: i32,
    pub r: u32,
}

/// The sustain level is a valid amplitude.
pub open spec fn spec_params_ok(p: ADSRParams) -> bool {
    0 <= p.s_level <= FIXED_ONE
}

/// An attack/decay/sustain/release amplitude envelope, advanced one output
/// sample per call.
pub struct ADSR {
    pub t: u64,
    pub state: ADSRState,
    pub p: ADSRParams,
}

/// The envelope's phase-local clock stays within its phase.
pub open spec fn spec_adsr_ok(e: ADSR) -> bool {
    &&& spec_params_ok(e.p)
    &&& (e.state == ADSRState::AttackDecay ==> e.t <= e.p.a + e.p.d)
    &&& (e.state == ADSRState::Release ==> e.t <= e.p.r)
}

/// The level `t` samples into the attack: a linear ramp from 0 to full
/// scale over `a` samples.
pub open spec fn spec_attack_level(p: ADSRParams, t: int) -> int {
    t * FIXED_ONE / (p.a as int)
}

/// The level `t2` samples into the decay: a linear ramp from full scale
/// down to the sustain level over `d` samples.
pub open spec fn spec_decay_level(p: ADSRParams, t2: int) -> int {
    FIXED_ONE - (FIXED_ONE - p.s_level) * t2 / (p.d as int)
}

/// The level `t` samples into the release: a linear ramp from the sustain
/// level down to 0 over `r` samples.
pub open spec fn spec_release_level(p: ADSRParams, t: int) -> int {
    p.s_level - p.s_level * t / (p.r as int)
}

/// One advance of the envelope: the successor state and the level it
/// reports, `None` once the envelope has gone quiet. The attack ramp runs
/// while the clock is inside `a`, the decay ramp inside the following `d`,
/// after which the envelope holds the sustain level until released; the
/// release ramp runs inside `r` and then goes quiet for good.
pub open spec fn spec_adsr_step(e: ADSR) -> (ADSR, Option<i32>) {
    let p = e.p;
    match e.state {
        ADSRState::Inactive => (e, None),
        ADSRState::AttackDecay => {
            if e.t < p.a {
                (
                    ADSR { t: (e.t + 1) as u64, ..e },
                    Some(spec_attack_level(p, e.t as int) as i32),
                )
            } else if e.t - p.a < p.d {
                (
                    ADSR { t: (e.t + 1) as u64, ..e },
                    Some(spec_decay_level(p, e.t - p.a) as i32),
                )
            } else {
                (ADSR { t: (e.t + 1) as u64, state: ADSRState::Sustain, ..e }, Some(p.s_level))
            }
        },
        ADSRState::Sustain => (e, Some(p.s_level)),
        ADSRState::Release => {
            if e.t >= p.r {
                (ADSR { t: (e.t + 1) as u64, state: ADSRState::Inactive, ..e }, None)
            } else {
                (
                    ADSR { t: (e.t + 1) as u64, ..e },
                    Some(spec_release_level(p, e.t as int) as i32),
                )
            }
        },
    }
}

/// During the attack the level stays a valid amplitude.
pub proof fn lemma_attack_bounds(p: ADSRParams, t: int)
    requires
        spec_params_ok(p),
        0 <= t < p.a,
    ensures
        0 <= spec_attack_level(p, t) <= FIXED_ONE,
{
    lemma_mul_nonnegative(t, FIXED_ONE as int);
    lemma_mul_inequality(t, p.a as int, FIXED_ONE as int);
    lemma_div_pos_is_pos(t * FIXED_ONE, p.a as int);
    assert((p.a as int) * (FIXED_ONE as int) == (FIXED_ONE as int) * (p.a as int))
        by (nonlinear_arith);
    lemma_multiply_divide_le(t * FIXED_ONE, p.a as int, FIXED_ONE as int);
}

/// Between a note-on and its release, the reported level first never
/// decreases: while the clock runs up the attack ramp, later samples report
/// levels at least as high.
pub proof fn lemma_attack_monotone(p: ADSRParams, t1: int, t2: int)
    requires
        spec_params_ok(p),
        0 <= t1 <= t2 < p.a,
    ensures
        spec_attack_level(p, t1) <= spec_attack_level(p, t2),
{
    lemma_mul_inequality(t1, t2, FIXED_ONE as int);
    lemma_div_is_ordered(t1 * FIXED_ONE, t2 * FIXED_ONE, p.a as int);
}

/// During the decay the level never increases and never falls below the
/// sustain level (nor above full scale): the ramp is monotone from full
/// scale toward sustain.
pub proof fn lemma_decay_monotone(p: ADSRParams, t1: int, t2: int)
    requires
        spec_params_ok(p),
        0 <= t1 <= t2 < p.d,
    ensures
        spec_decay_level(p, t2) <= spec_decay_level(p, t1),
        p.s_level <= spec_decay_level(p, t2),
        spec_decay_level(p, t1) <= FIXED_ONE,
{
    let span = FIXED_ONE - p.s_level;
    lemma_mul_nonnegative(span, t1);
    lemma_mul_inequality(t1, t2, span);
    assert(t1 * span == span * t1 && t2 * span == span * t2) by (nonlinear_arith);
    lemma_div_is_ordered(span * t1, span * t2, p.d as int);
    lemma_div_pos_is_pos(span * t1, p.d as int);
    lemma_mul_inequality(t2, p.d as int, span);
    assert(t2 * span == span * t2 && (p.d as int) * span == span * (p.d as int))
        by (nonlinear_arith);
    lemma_multiply_divide_le(span * t2, p.d as int, span);
}

/// During the release the level never increases, stays a valid amplitude,
/// and starts no higher than the sustain level.
pub proof fn lemma_release_monotone(p: ADSRParams, t1: int, t2: int)
    requires
        spec_params_ok(p),
        0 <= t1 <= t2 < p.r,
    ensures
        spec_release_level(p, t2) <= spec_release_level(p, t1),
        0 <= spec_release_level(p, t2),
        spec_release_level(p, t1) <= p.s_level,
{
    let s = p.s_level as int;
    lemma_mul_nonnegative(s, t1);
    lemma_mul_inequality(t1, t2, s);
    assert(t1 * s == s * t1 && t2 * s == s * t2) by (nonlinear_arith);
    lemma_div_is_ordered(s * t1, s * t2, p.r as int);
    lemma_div_pos_is_pos(s * t1, p.r as int);
    lemma_mul_inequality(t2, p.r as int, s);
    assert((p.r as int) * s == s * (p.r as int)) by (nonlinear_arith);
    lemma_multiply_divide_le(s * t2, p.r as int, s);
}

/// While sustained, every advance reports exactly the sustain level and
/// moves nothing: the envelope holds until released.
pub proof fn lemma_sustain_exact(e: ADSR)
    requires
        e.state == ADSRState::Sustain,
    ensures
        spec_adsr_step(e).1 == Some(e.p.s_level),
        spec_adsr_step(e).0 == e,
{
}

impl ADSR {
    /// A fresh, inactive envelope with these parameters.
    pub fn new(p: &ADSRParams) -> (r: ADSR)
        ensures
            r.t == 0,
            r.state == ADSRState::Inactive,
            r.p == *p,
    {
        ADSR { t: 0, state: ADSRState::Inactive, p: *p }
    }

    /// Note-on: restart the phase clock and enter the attack/decay ramp.
    pub fn trigger_start(&mut self)
        ensures
            *final(self) == (ADSR { t: 0, state: ADSRState::AttackDecay, p: old(self).p }),
    {
        self.t = 0;
        self.state = ADSRState::AttackDecay;
    }

    /// Note-off: restart the phase clock and enter the release ramp.
    pub fn trigger_end(&mut self)
        ensures
            *final(self) == (ADSR { t: 0, state: ADSRState::Release, p: old(self).p }),
    {
        self.t = 0;
        self.state = ADSRState::Release;
    }

    /// Advance one sample and report the current level, as
    /// [`spec_adsr_step`] says; quiet envelopes report nothing.
    pub fn next(&mut self) -> (r: Option<i32>)
        requires
            spec_adsr_ok(*old(self)),
        ensures
            spec_adsr_ok(*final(self)),
            ({
                let (e2, lv) = spec_adsr_step(*old(self));
                *final(self) == e2 && r == lv
            }),
            r matches Some(v) ==> 0 <= v <= FIXED_ONE,
    {
        let t = self.t;
        match self.state {
            ADSRState::Inactive => None,
            ADSRState::AttackDecay => {
                self.t = t + 1;
                if t < self.p.a as u64 {
                    proof {
                        lemma_attack_bounds(self.p, t as int);
                    }
                    let lv: u64 = (t * (FIXED_ONE as u64)) / (self.p.a as u64);
                    Some(lv as i32)
                } else if t - (self.p.a as u64) < self.p.d as u64 {
                    let t2: u64 = t - (self.p.a as u64);
                    proof {
                        lemma_decay_monotone(self.p, t2 as int, t2 as int);
                        let span = (FIXED_ONE - self.p.s_level) as int;
                        assert(0 <= span * (t2 as int) <= 32640 * 0x100000000) by (nonlinear_arith)
                            requires
                                0 <= span <= 32640,
                                0 <= t2 as int,
                                (t2 as int) < 0x100000000,
                        ;
                    }
                    let drop: u64 = (((FIXED_ONE - self.p.s_level) as u64) * t2) / (
                    self.p.d as u64);
                    proof {
                        assert(drop == (FIXED_ONE - self.p.s_level) * (t2 as int) / (
                        self.p.d as int));
                    }
                    Some(FIXED_ONE - (drop as i32))
                } else {
                    self.state = ADSRState::Sustain;
                    Some(self.p.s_level)
                }
            },
            ADSRState::Sustain => Some(self.p.s_level),
            ADSRState::Release => {
                self.t = t + 1;
                if t >= self.p.r as u64 {
                    self.state = ADSRState::Inactive;
                    None
                } else {
                    proof {
                        lemma_release_monotone(self.p, t as int, t as int);
                        let s = self.p.s_level as int;
                        assert(0 <= s * (t as int) <= 32640 * 0x100000000) by (nonlinear_arith)
                            requires
                                0 <= s <= 32640,
                                0 <= t as int,
                                (t as int) < 0x100000000,
                        ;
                    }
                    let fall: u64 = ((self.p.s_level as u64) * t) / (self.p.r as u64);
                    Some(self.p.s_level - (fall as i32))
                }
            },
        }
    }
}

/// The sample an enveloped generator yields: the raw generator's sample
/// scaled by the envelope level over full scale, or silence when the
/// envelope reports none (the raw generator is then left untouched).
pub open spec fn spec_enveloped_out(g: Oscillator, e: ADSR) -> int {
    match spec_adsr_step(e).1 {
        Some(v) => tdiv(spec_osc_out(g) * v, FIXED_ONE as int),
        None => 0,
    }
}

/// An oscillator shaped by an ADSR envelope.
pub struct EnvelopedGenerator {
    pub g: Oscillator,
    pub e: ADSR,
}

impl Generator for EnvelopedGenerator {
    open spec fn gen_ok(&self) -> bool {
        crate::synth::spec_osc_ok(self.g) && spec_adsr_ok(self.e)
    }

    /// Advance the envelope; when it reports a level, advance the raw
    /// generator too and scale its sample by the level.
    fn next(&mut self) -> (r: i32)
        ensures
            r == spec_enveloped_out(old(self).g, old(self).e),
            -FIXED_ONE <= r <= FIXED_ONE,
            final(self).e == spec_adsr_step(old(self).e).0,
            ({
                match spec_adsr_step(old(self).e).1 {
                    None => final(self).g == old(self).g,
                    Some(_) => {
                        &&& final(self).g.sample_rate == old(self).g.sample_rate
                        &&& final(self).g.waveform == old(self).g.waveform
                        &&& final(self).g.phase == (old(self).g.phase
                            + old(self).g.waveform.spec_decihz()) as int % (10 * old(
                            self,
                        ).g.sample_rate as int)
                    },
                }
            }),
    {
        let lv = self.e.next();
        match lv {
            None => 0,
            Some(v) => {
                let gv = self.g.next();
                proof {
                    assert(-(32640 * 32640) <= (gv as int) * (v as int) <= 32640 * 32640)
                        by (nonlinear_arith)
                        requires
                            -32640 <= gv as int <= 32640,
                            0 <= v as int <= 32640,
                    ;
                    crate::dsp::lemma_tdiv_mono((gv as int) * (v as int), 32640int * 32640, 32640);
                    crate::dsp::lemma_tdiv_mono(
                        -(32640int * 32640),
                        (gv as int) * (v as int),
                        32640,
                    );
                }
                let prod: i64 = (gv as i64) * (v as i64);
                let q: i64 = if prod >= 0 {
                    ((prod as u64) / (FIXED_ONE as u64)) as i64
                } else {
                    -((((-prod) as u64) / (FIXED_ONE as u64)) as i64)
                };
                q as i32
            },
        }
    }
}

impl Enveloped for EnvelopedGenerator {
    /// Note-on: restart the envelope; the raw generator keeps its phase.
    fn trigger_start(&mut self)
        ensures
            final(self).g == old(self).g,
            final(self).e == (ADSR { t: 0, state: ADSRState::AttackDecay, p: old(self).e.p }),
    {
        self.e.trigger_start();
    }

    /// Note-off: release the envelope; the raw generator keeps its phase.
    fn trigger_end(&mut self)
        ensures
            final(self).g == old(self).g,
            final(self).e == (ADSR { t: 0, state: ADSRState::Release, p: old(self).e.p }),
    {
        self.e.trigger_end();
    }
}

/// How the pool builds a voice for a note: a synthesizer oscillator with an
/// envelope, or a playback of one sample, both frozen copies of the
/// configuration that stood when the voice started.
pub enum VoiceConfig {
    Synth { kind: WaveformKind, params: ADSRParams, sample_rate: u32 },
    Sampled { sample: Sample, sample_rate: u32 },
}

/// A configuration the pool can build voices from.
pub open spec fn spec_config_ok(c: VoiceConfig) -> bool {
    match c {
        VoiceConfig::Synth { kind, params, sample_rate } => 1 <= sample_rate <= 1000000
            && spec_params_ok(params),
        VoiceConfig::Sampled { sample, sample_rate } => 1 <= sample_rate <= 1000000,
    }
}

/// One sounding voice.
pub enum Voice {
    Synth(EnvelopedGenerator),
    Sampled(SamplePlayback<ModSignal>),
}

/// The voice built for `n` from configuration `c`, before its note-on.
pub open spec fn spec_voice_built(c: VoiceConfig, n: Note, v: Voice) -> bool {
    match c {
        VoiceConfig::Synth { kind, params, sample_rate } => v matches Voice::Synth(eg) && {
            &&& eg.g.sample_rate == sample_rate
            &&& eg.g.phase == 0
            &&& (kind == WaveformKind::Sine ==> eg.g.waveform == AnyWaveform::Sine(
                crate::synth::SineWave { decihz: n.spec_freq() },
            ))
            &&& (kind == WaveformKind::Square ==> eg.g.waveform == AnyWaveform::Square(
                crate::synth::SquareWave { decihz: n.spec_freq() },
            ))
            &&& eg.e.p == params
        },
        VoiceConfig::Sampled { sample, sample_rate } => v matches Voice::Sampled(sp) && {
            &&& sp.spec_signal() == crate::dsp::converted(
                crate::dsp::resampled(
                    sample.data@,
                    crate::playback::spec_play_len(
                        sample.data@.len() as int,
                        sample_rate as int,
                        n.spec_freq() as int,
                    ) as nat,
                ),
            )
            &&& sp.spec_repeat() == crate::playback::spec_play_repeat(
                sample,
                sample_rate as int,
                n.spec_freq() as int,
            )
            &&& sp.spec_volume() == sample.volume
        },
    }
}

/// `v` is right after its note-on, given how it was built.
pub open spec fn spec_voice_started(v: Voice) -> bool {
    match v {
        Voice::Synth(eg) => eg.e.t == 0 && eg.e.state == ADSRState::AttackDecay,
        Voice::Sampled(sp) => sp.spec_state() == (crate::playback::SamplePlaybackState::First {
            ix: 0,
        }),
    }
}

impl Generator for Voice {
    open spec fn gen_ok(&self) -> bool {
        match self {
            Voice::Synth(eg) => eg.gen_ok(),
            Voice::Sampled(sp) => forall|k: int|
                0 <= k < sp.spec_signal().len() ==> -FIXED_ONE <= (#[trigger] sp.spec_signal()[k])
                    <= FIXED_ONE,
        }
    }

    /// Advance the voice one sample.
    fn next(&mut self) -> (r: i32)
        ensures
            -130050 <= r <= 130050,
            r == spec_voice_out(*old(self)),
            spec_voice_stepped(*old(self), *final(self)),
    {
        match self {
            Voice::Synth(eg) => eg.next(),
            Voice::Sampled(sp) => {
                let ghost sig = sp.spec_signal();
                let ghost rep = sp.spec_repeat();
                let ghost st = sp.spec_state();
                let ghost vol = sp.spec_volume();
                let out = sp.next();
                proof {
                    let (st2, raw) = crate::playback::spec_playback_step(sig, rep, st);
                    assert(-FIXED_ONE <= raw <= FIXED_ONE);
                    assert(raw * vol <= 32640 * 255 && -(32640 * 255) <= raw * vol)
                        by (nonlinear_arith)
                        requires
                            -32640 <= raw <= 32640,
                            0 <= vol as int <= 255,
                    ;
                    crate::dsp::lemma_tdiv_mono(raw * vol, 32640int * 255, 64);
                    crate::dsp::lemma_tdiv_mono(-(32640int * 255), raw * vol, 64);
                }
                out
            },
        }
    }
}

impl Enveloped for Voice {
    /// Note-on for whichever voice this is.
    fn trigger_start(&mut self)
        ensures
            old(self).gen_ok() ==> final(self).gen_ok(),
            spec_voice_started(*final(self)),
            spec_voice_restarted(*old(self), *final(self)),
    {
        match self {
            Voice::Synth(eg) => eg.trigger_start(),
            Voice::Sampled(sp) => sp.trigger_start(),
        }
    }

    /// Note-off for whichever voice this is.
    fn trigger_end(&mut self)
        ensures
            old(self).gen_ok() ==> final(self).gen_ok(),
            spec_voice_ended(*old(self), *final(self)),
    {
        match self {
            Voice::Synth(eg) => eg.trigger_end(),
            Voice::Sampled(sp) => sp.trigger_end(),
        }
    }
}

/// What advancing a voice one sample yields, before mixing.
pub open spec fn spec_voice_out(v: Voice) -> int {
    match v {
        Voice::Synth(eg) => spec_enveloped_out(eg.g, eg.e),
        Voice::Sampled(sp) => {
            let (st2, raw) = crate::playback::spec_playback_step(
                sp.spec_signal(),
                sp.spec_repeat(),
                sp.spec_state(),
            );
            crate::dsp::volume_scaled(raw, sp.spec_volume() as int)
        },
    }
}

/// How advancing one sample moves a voice on.
pub open spec fn spec_voice_stepped(v0: Voice, v: Voice) -> bool {
    match (v0, v) {
        (Voice::Synth(a), Voice::Synth(b)) => {
            &&& b.e == spec_adsr_step(a.e).0
            &&& match spec_adsr_step(a.e).1 {
                None => b.g == a.g,
                Some(_) => {
                    &&& b.g.sample_rate == a.g.sample_rate
                    &&& b.g.waveform == a.g.waveform
                    &&& b.g.phase == (a.g.phase + a.g.waveform.spec_decihz()) as int % (10
                        * a.g.sample_rate as int)
                },
            }
        },
        (Voice::Sampled(a), Voice::Sampled(b)) => {
            &&& b.spec_signal() == a.spec_signal()
            &&& b.spec_repeat() == a.spec_repeat()
            &&& b.spec_volume() == a.spec_volume()
            &&& b.spec_state() == crate::playback::spec_playback_step(
                a.spec_signal(),
                a.spec_repeat(),
                a.spec_state(),
            ).0
        },
        _ => false,
    }
}

/// How a note-on moves a voice: a synthesizer voice restarts its envelope
/// (the oscillator keeps its phase); a sample voice rewinds to its start.
pub open spec fn spec_voice_restarted(v0: Voice, v: Voice) -> bool {
    match (v0, v) {
        (Voice::Synth(a), Voice::Synth(b)) => b.g == a.g && b.e == (ADSR {
            t: 0,
            state: ADSRState::AttackDecay,
            p: a.e.p,
        }),
        (Voice::Sampled(a), Voice::Sampled(b)) => {
            &&& b.spec_signal() == a.spec_signal()
            &&& b.spec_repeat() == a.spec_repeat()
            &&& b.spec_volume() == a.spec_volume()
            &&& b.spec_state() == (crate::playback::SamplePlaybackState::First { ix: 0 })
        },
        _ => false,
    }
}

/// How a note-off moves a voice: a synthesizer voice enters its release
/// ramp; a sample voice stops dead.
pub open spec fn spec_voice_ended(v0: Voice, v: Voice) -> bool {
    match (v0, v) {
        (Voice::Synth(a), Voice::Synth(b)) => b.g == a.g && b.e == (ADSR {
            t: 0,
            state: ADSRState::Release,
            p: a.e.p,
        }),
        (Voice::Sampled(a), Voice::Sampled(b)) => {
            &&& b.spec_signal() == a.spec_signal()
            &&& b.spec_repeat() == a.spec_repeat()
            &&& b.spec_volume() == a.spec_volume()
            &&& b.spec_state() == crate::playback::SamplePlaybackState::Stopped
        },
        _ => false,
    }
}

/// One pool slot: the quantized note key, the sounding voice, and its
/// 512-sample circular visualization buffer.
pub struct VoiceSlot {
    pub key: u32,
    pub gen: Voice,
    pub scope: Vec<i32>,
}

/// The keys of a voice sequence, in pool order.
pub open spec fn spec_pool_keys(vs: Seq<VoiceSlot>) -> Seq<u32> {
    vs.map_values(|s: VoiceSlot| s.key)
}

/// A pool of voices keyed by quantized note, each with its visualization
/// buffer, sharing one circular write cursor.
///
/// A note-off only releases its voice: the entry and its buffer stay in
/// the pool until the same key is started again, which discards and
/// replaces them. The pool never evicts entries on its own, so its size is
/// bounded by the number of distinct keys ever started.
pub struct PolyphonicGenerator {
    pub config: VoiceConfig,
    pub voices: Vec<VoiceSlot>,
    pub scope_ix: usize,
}

/// The pool's invariant: a buildable configuration, the cursor inside (or
/// just past) the buffer, pairwise distinct keys, and every voice sound and
/// backed by a full-size buffer.
pub open spec fn spec_pool_ok(p: PolyphonicGenerator) -> bool {
    &&& spec_config_ok(p.config)
    &&& p.scope_ix <= 512
    &&& forall|i: int, j: int|
        0 <= i < j < p.voices.len() ==> (#[trigger] p.voices[i].key) != (#[trigger] p.voices[j].key)
    &&& forall|i: int| 0 <= i < p.voices.len() ==> (#[trigger] p.voices[i]).gen.gen_ok()
    &&& forall|i: int| 0 <= i < p.voices.len() ==> (#[trigger] p.voices[i]).scope.len() == 512
}

/// The pool's key sequence after a note-on: unchanged when the key already
/// sounds (its voice is replaced in place), else extended by the key.
pub open spec fn spec_keys_after_start(keys: Seq<u32>, k: u32) -> Seq<u32> {
    if keys.contains(k) {
        keys
    } else {
        keys.push(k)
    }
}

/// Starting a note whose quantized key is already in the pool replaces the
/// old voice rather than layering a second one: the key sequence does not
/// change, so exactly one entry holds the key — in particular, starting two
/// notes with equal keys one after the other grows the pool by at most one
/// entry, never two.
pub proof fn lemma_restart_same_key(keys: Seq<u32>, k: u32)
    ensures
        spec_keys_after_start(spec_keys_after_start(keys, k), k) == spec_keys_after_start(keys, k),
        spec_keys_after_start(keys, k).contains(k),
        keys.contains(k) ==> spec_keys_after_start(keys, k) == keys,
        !keys.contains(k) ==> spec_keys_after_start(keys, k).len() == keys.len() + 1,
{
    if !keys.contains(k) {
        let ks1 = keys.push(k);
        assert(ks1[keys.len() as int] == k);
        assert(ks1.contains(k));
    }
}

/// The mix of the first `c` pool voices: each voice's sample attenuated by
/// `3 / 10` (truncated), then summed.
pub open spec fn spec_pool_mix(vs: Seq<VoiceSlot>, c: int) -> int
    decreases c,
{
    if c <= 0 {
        0
    } else {
        spec_pool_mix(vs, c - 1) + tdiv(spec_voice_out(vs[c - 1].gen) * 3, 10)
    }
}

/// `v` clamped into the `i32` range.
pub open spec fn spec_clamp_i32(v: int) -> int {
    if v > i32::MAX {
        i32::MAX as int
    } else if v < i32::MIN {
        i32::MIN as int
    } else {
        v
    }
}

/// Build the voice the current configuration calls for at note `n`.
fn build_voice(config: &VoiceConfig, n: Note) -> (v: Voice)
    requires
        spec_config_ok(*config),
        n.spec_freq() > 0,
    ensures
        spec_voice_built(*config, n, v),
        v.gen_ok(),
{
    match config {
        VoiceConfig::Synth { kind, params, sample_rate } => {
            let w = kind.new(n.decihz());
            let osc = Oscillator::new(*sample_rate, w);
            let env = ADSR::new(params);
            Voice::Synth(EnvelopedGenerator { g: osc, e: env })
        },
        VoiceConfig::Sampled { sample, sample_rate } => {
            let sp = sample.play(n, *sample_rate);
            proof {
                crate::dsp::lemma_converted_bounded(
                    crate::dsp::resampled(
                        sample.data@,
                        crate::playback::spec_play_len(
                            sample.data@.len() as int,
                            *sample_rate as int,
                            n.spec_freq() as int,
                        ) as nat,
                    ),
                );
            }
            Voice::Sampled(sp)
        },
    }
}

/// A zero-filled visualization buffer.
fn zero_scope() -> (r: Vec<i32>)
    ensures
        r@.len() == 512,
        forall|q: int| 0 <= q < 512 ==> r@[q] == 0i32,
{
    let mut v: Vec<i32> = Vec::new();
    let mut i: usize = 0;
    while i < 512
        invariant
            i <= 512,
            v.len() == i,
            forall|q: int| 0 <= q < i ==> v@[q] == 0i32,
        decreases 512 - i,
    {
        v.push(0);
        i = i + 1;
    }
    v
}

impl PolyphonicGenerator {
    /// An empty pool that will build voices from `config`.
    pub fn new(config: VoiceConfig) -> (r: PolyphonicGenerator)
        requires
            spec_config_ok(config),
        ensures
            spec_pool_ok(r),
            r.config == config,
            r.voices@.len() == 0,
            r.scope_ix == 0,
    {
        PolyphonicGenerator { config, voices: Vec::new(), scope_ix: 0 }
    }

    /// Swap in a new voice configuration; already-sounding voices keep the
    /// configuration they were started with.
    pub fn set_config(&mut self, config: VoiceConfig)
        requires
            spec_pool_ok(*old(self)),
            spec_config_ok(config),
        ensures
            spec_pool_ok(*final(self)),
            final(self).config == config,
            final(self).voices == old(self).voices,
            final(self).scope_ix == old(self).scope_ix,
    {
        self.config = config;
    }

    /// Note-on: when the note's quantized key already sounds, its voice and
    /// buffer are discarded and replaced (a hard retrigger, no layering);
    /// otherwise a new entry is added. Either way the new voice is built
    /// from the current configuration, started from its beginning, and
    /// given a zero-filled buffer.
    pub fn start(&mut self, n: Note)
        requires
            spec_pool_ok(*old(self)),
            n.spec_freq() > 0,
        ensures
            spec_pool_ok(*final(self)),
            final(self).config == old(self).config,
            final(self).scope_ix == old(self).scope_ix,
            spec_pool_keys(final(self).voices@) == spec_keys_after_start(
                spec_pool_keys(old(self).voices@),
                n.spec_freq(),
            ),
            forall|i: int|
                0 <= i < old(self).voices.len() && old(self).voices[i].key != n.spec_freq()
                    ==> #[trigger] final(self).voices[i] == old(self).voices[i],
            exists|i: int|
                0 <= i < final(self).voices.len() && (#[trigger] final(self).voices[i]).key
                    == n.spec_freq() && spec_voice_built(
                    old(self).config,
                    n,
                    final(self).voices[i].gen,
                ) && spec_voice_started(final(self).voices[i].gen) && (forall|q: int|
                    0 <= q < 512 ==> final(self).voices[i].scope@[q] == 0i32),
    {
        let key = NoteApprox::from(n).0;
        let mut v = build_voice(&self.config, n);
        v.trigger_start();
        let scope = zero_scope();
        let n_voices = self.voices.len();
        let mut found: usize = n_voices;
        let mut i: usize = 0;
        while i < n_voices
            invariant
                i <= n_voices,
                n_voices == self.voices.len(),
                found == n_voices || (found < i && self.voices[found as int].key == key),
                found == n_voices ==> forall|k: int|
                    0 <= k < i ==> (#[trigger] self.voices[k].key) != key,
            decreases n_voices - i,
        {
            if found == n_voices && self.voices[i].key == key {
                found = i;
            }
            i = i + 1;
        }
        if found < n_voices {
            let ghost vs0 = self.voices@;
            let slot = vstd::std_specs::vec::vec_index_mut(&mut self.voices, found);
            slot.gen = v;
            slot.scope = scope;
            proof {
                assert(spec_pool_keys(vs0)[found as int] == key);
                assert(spec_pool_keys(vs0).contains(key));
                assert(spec_pool_keys(self.voices@) =~= spec_pool_keys(vs0));
                assert(self.voices[found as int].key == n.spec_freq() && spec_voice_built(
                    old(self).config,
                    n,
                    self.voices[found as int].gen,
                ) && spec_voice_started(self.voices[found as int].gen));
            }
        } else {
            let ghost vs0 = self.voices@;
            self.voices.push(VoiceSlot { key, gen: v, scope });
            proof {
                assert forall|q: int| 0 <= q < spec_pool_keys(vs0).len() implies spec_pool_keys(
                    vs0,
                )[q] != key by {
                    assert(vs0[q].key != key);
                }
                assert(!spec_pool_keys(vs0).contains(key));
                assert(spec_pool_keys(self.voices@) =~= spec_pool_keys(vs0).push(key));
                let w = vs0.len() as int;
                assert(self.voices[w].key == n.spec_freq() && spec_voice_built(
                    old(self).config,
                    n,
                    self.voices[w].gen,
                ) && spec_voice_started(self.voices[w].gen));
            }
        }
    }

    /// Note-off: when the note's quantized key sounds, signal its voice's
    /// release (the entry itself stays in the pool until the key is started
    /// again); a key that does not sound is ignored.
    pub fn stop(&mut self, n: Note)
        requires
            spec_pool_ok(*old(self)),
        ensures
            spec_pool_ok(*final(self)),
            final(self).config == old(self).config,
            final(self).scope_ix == old(self).scope_ix,
            final(self).voices.len() == old(self).voices.len(),
            spec_pool_keys(final(self).voices@) == spec_pool_keys(old(self).voices@),
            forall|i: int|
                0 <= i < old(self).voices.len() && old(self).voices[i].key != n.spec_freq()
                    ==> #[trigger] final(self).voices[i] == old(self).voices[i],
            forall|i: int|
                0 <= i < old(self).voices.len() && (#[trigger] old(self).voices[i]).key
                    == n.spec_freq() ==> final(self).voices[i].key == old(self).voices[i].key
                    && final(self).voices[i].scope == old(self).voices[i].scope
                    && spec_voice_ended(old(self).voices[i].gen, final(self).voices[i].gen),
    {
        let key = NoteApprox::from(n).0;
        let n_voices = self.voices.len();
        let mut found: usize = n_voices;
        let mut i: usize = 0;
        while i < n_voices
            invariant
                i <= n_voices,
                n_voices == self.voices.len(),
                found == n_voices || (found < i && self.voices[found as int].key == key),
                found == n_voices ==> forall|k: int|
                    0 <= k < i ==> (#[trigger] self.voices[k].key) != key,
            decreases n_voices - i,
        {
            if found == n_voices && self.voices[i].key == key {
                found = i;
            }
            i = i + 1;
        }
        if found < n_voices {
            let ghost vs0 = self.voices@;
            let slot = vstd::std_specs::vec::vec_index_mut(&mut self.voices, found);
            slot.gen.trigger_end();
            proof {
                assert(spec_pool_keys(self.voices@) =~= spec_pool_keys(vs0));
            }
        }
    }

    /// How many voices the pool holds (sounding or not: released entries
    /// linger until their key is started again).
    pub fn voice_count(&self) -> (r: usize)
        ensures
            r == self.voices.len(),
    {
        self.voices.len()
    }

    /// The quantized key of pool entry `i`.
    pub fn key_at(&self, i: usize) -> (r: u32)
        requires
            i < self.voices.len(),
        ensures
            r == self.voices[i as int].key,
    {
        self.voices[i].key
    }

    /// The visualization buffer of pool entry `i`: its voice's most recent
    /// raw samples, written circularly at the shared cursor.
    pub fn scope_at(&self, i: usize) -> (r: &Vec<i32>)
        requires
            i < self.voices.len(),
        ensures
            r == self.voices[i as int].scope,
    {
        &self.voices[i].scope
    }
}

impl Generator for PolyphonicGenerator {
    open spec fn gen_ok(&self) -> bool {
        spec_pool_ok(*self)
    }

    /// Advance every voice one sample, record each voice's raw sample into
    /// its buffer at the shared cursor (wrapping at 512), and return the
    /// mix of all voices at `3 / 10` weight each, clamped to the sample
    /// range.
    fn next(&mut self) -> (r: i32)
        ensures
            final(self).config == old(self).config,
            final(self).voices.len() == old(self).voices.len(),
            final(self).scope_ix == (if old(self).scope_ix >= 512 {
                1int
            } else {
                old(self).scope_ix + 1
            }),
            ({
                let ix = if old(self).scope_ix >= 512 {
                    0int
                } else {
                    old(self).scope_ix as int
                };
                forall|i: int|
                    0 <= i < old(self).voices.len() ==> {
                        &&& (#[trigger] final(self).voices[i]).key == old(self).voices[i].key
                        &&& spec_voice_stepped(old(self).voices[i].gen, final(self).voices[i].gen)
                        &&& final(self).voices[i].scope@ == old(self).voices[i].scope@.update(
                            ix,
                            spec_voice_out(old(self).voices[i].gen) as i32,
                        )
                    }
            }),
            r == spec_clamp_i32(spec_pool_mix(old(self).voices@, old(self).voices.len() as int)),
    {
        if self.scope_ix >= 512 {
            self.scope_ix = 0;
        }
        let ix = self.scope_ix;
        self.scope_ix = self.scope_ix + 1;
        let ghost vs0 = self.voices@;
        let mut acc: i128 = 0;
        let mut i: usize = 0;
        let n_voices = self.voices.len();
        while i < n_voices
            invariant
                i <= n_voices,
                n_voices == self.voices.len(),
                vs0.len() == n_voices,
                ix < 512,
                self.config == old(self).config,
                self.scope_ix == (if old(self).scope_ix >= 512 {
                    1int
                } else {
                    old(self).scope_ix + 1
                }),
                ix as int == (if old(self).scope_ix >= 512 {
                    0int
                } else {
                    old(self).scope_ix as int
                }),
                forall|k: int| i <= k < n_voices ==> #[trigger] self.voices[k] == vs0[k],
                forall|k: int| 0 <= k < n_voices ==> (#[trigger] vs0[k]).gen.gen_ok(),
                forall|k: int| 0 <= k < n_voices ==> (#[trigger] vs0[k]).scope.len() == 512,
                forall|k: int|
                    0 <= k < i ==> {
                        &&& (#[trigger] self.voices[k]).key == vs0[k].key
                        &&& spec_voice_stepped(vs0[k].gen, self.voices[k].gen)
                        &&& self.voices[k].gen.gen_ok()
                        &&& self.voices[k].scope@ == vs0[k].scope@.update(
                            ix as int,
                            spec_voice_out(vs0[k].gen) as i32,
                        )
                    },
                acc == spec_pool_mix(vs0, i as int),
                -40000 * (i as int) <= acc <= 40000 * (i as int),
            decreases n_voices - i,
        {
            let slot = vstd::std_specs::vec::vec_index_mut(&mut self.voices, i);
            let out = slot.gen.next();
            slot.scope.set(ix, out);
            let term: i64 = crate::player::tdiv10((out as i64) * 3);
            proof {
                crate::dsp::lemma_tdiv_mono((out as i64) * 3 as int, 400000, 10);
                crate::dsp::lemma_tdiv_mono(-400000, (out as i64) * 3 as int, 10);
            }
            acc = acc + (term as i128);
            i = i + 1;
        }
        if acc > i32::MAX as i128 {
            i32::MAX
        } else if acc < i32::MIN as i128 {
            i32::MIN
        } else {
            acc as i32
        }
    }
}

} // verus!
