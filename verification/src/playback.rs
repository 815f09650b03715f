//! Per-voice playback: a cursor over a pitched, volume-scaled sample signal,
//! with loop semantics.
//!
//! [`crate::promod::Sample::play`] builds the voice: the sample's PCM data is
//! lazily resampled to the length that the requested note and output rate
//! call for, converted to normalized amplitudes, and read by a
//! [`SamplePlayback`] cursor that scales each sample by `volume / 64`.

use vstd::prelude::*;
use crate::dsp::{
    FixedSignal, Interpolator, Converter, volume_scaled, scale_volume, resampled, converted,
};
use crate::notes::Note;
use crate::promod::Sample;
use crate::sound::{Generator, Enveloped};

verus! {

/// Playback position of a voice: silent, in the initial pass over the
/// signal, or cycling through the loop window.
#[derive(Debug, Clone, Copy, PartialEq, Eq, Structural)]
pub enum SamplePlaybackState {
    Stopped,
    First { ix: usize },
    Repeating { ix: usize },
}

/// One step of a playback index, stopping at the machine limit instead of
/// wrapping (a bound never reached by real signals).
pub open spec fn spec_inc(ix: usize) -> usize {
    if ix == usize::MAX {
        ix
    } else {
        (ix + 1) as usize
    }
}

/// The sample at `ix`, and silence outside the signal.
pub open spec fn spec_sample_at(sig: Seq<i32>, ix: int) -> int {
    if 0 <= ix < sig.len() {
        sig[ix] as int
    } else {
        0
    }
}

/// The first index past the active window: the end of the loop window when a
/// loop is configured, else the signal length.
pub open spec fn spec_play_bound(rep: Option<(usize, usize)>, len: nat) -> int {
    match rep {
        Some(r) => r.0 + r.1,
        None => len as int,
    }
}

/// One advance of a running cursor at `ix`: past the active window it wraps
/// to the loop start (or stops for good without a loop); otherwise it reads
/// the current sample. Either way the index then moves one step on.
pub open spec fn spec_running_step(
    sig: Seq<i32>,
    rep: Option<(usize, usize)>,
    ix: usize,
    first: bool,
) -> (SamplePlaybackState, int) {
    if ix as int >= spec_play_bound(rep, sig.len()) {
        match rep {
            Some(r) => (
                SamplePlaybackState::Repeating { ix: spec_inc(r.0) },
                spec_sample_at(sig, r.0 as int),
            ),
            None => (SamplePlaybackState::Stopped, 0),
        }
    } else if first {
        (SamplePlaybackState::First { ix: spec_inc(ix) }, spec_sample_at(sig, ix as int))
    } else {
        (SamplePlaybackState::Repeating { ix: spec_inc(ix) }, spec_sample_at(sig, ix as int))
    }
}

/// One advance of the playback machine: the next state and the raw sample
/// read (before volume scaling). A stopped voice stays stopped and silent.
pub open spec fn spec_playback_step(
    sig: Seq<i32>,
    rep: Option<(usize, usize)>,
    st: SamplePlaybackState,
) -> (SamplePlaybackState, int) {
    match st {
        SamplePlaybackState::Stopped => (SamplePlaybackState::Stopped, 0),
        SamplePlaybackState::First { ix } => spec_running_step(sig, rep, ix, true),
        SamplePlaybackState::Repeating { ix } => spec_running_step(sig, rep, ix, false),
    }
}

fn sat_inc(ix: usize) -> (r: usize)
    ensures
        r == spec_inc(ix),
{
    if ix == usize::MAX {
        ix
    } else {
        ix + 1
    }
}

/// A per-voice cursor over a pitched, volume-scaled signal.
pub struct SamplePlayback<S: FixedSignal> {
    signal: S,
    repeat: Option<(usize, usize)>,
    state: SamplePlaybackState,
    volume: u8,
}

impl<S: FixedSignal> SamplePlayback<S> {
    /// The signal being played.
    pub closed spec fn spec_signal(&self) -> Seq<i32> {
        self.signal.fsig()
    }

    /// The loop window as (start, length), if one is configured.
    pub closed spec fn spec_repeat(&self) -> Option<(usize, usize)> {
        self.repeat
    }

    /// The playback position.
    pub closed spec fn spec_state(&self) -> SamplePlaybackState {
        self.state
    }

    /// The voice volume, on the 0..=64 scale (values above 64 amplify).
    pub closed spec fn spec_volume(&self) -> u8 {
        self.volume
    }

    /// A new, initially stopped voice.
    pub fn new(signal: S, repeat: Option<(usize, usize)>, volume: u8) -> (r: Self)
        ensures
            r.spec_signal() == signal.fsig(),
            r.spec_repeat() == repeat,
            r.spec_state() == SamplePlaybackState::Stopped,
            r.spec_volume() == volume,
    {
        SamplePlayback { signal, repeat, state: SamplePlaybackState::Stopped, volume }
    }

    pub fn volume(&self) -> (r: u8)
        ensures
            r == self.spec_volume(),
    {
        self.volume
    }

    /// Change the voice volume, leaving playback untouched.
    pub fn set_volume(&mut self, v: u8)
        ensures
            final(self).spec_volume() == v,
            final(self).spec_signal() == old(self).spec_signal(),
            final(self).spec_repeat() == old(self).spec_repeat(),
            final(self).spec_state() == old(self).spec_state(),
    {
        self.volume = v;
    }
}

impl<S: FixedSignal> Generator for SamplePlayback<S> {
    open spec fn gen_ok(&self) -> bool {
        true
    }

    /// Advance one sample: the raw sample [`spec_playback_step`] reads,
    /// scaled by `volume / 64`.
    fn next(&mut self) -> (r: i32)
        ensures
            final(self).spec_signal() == old(self).spec_signal(),
            final(self).spec_repeat() == old(self).spec_repeat(),
            final(self).spec_volume() == old(self).spec_volume(),
            ({
                let (st2, raw) = spec_playback_step(
                    old(self).spec_signal(),
                    old(self).spec_repeat(),
                    old(self).spec_state(),
                );
                final(self).spec_state() == st2 && r == volume_scaled(
                    raw,
                    old(self).spec_volume() as int,
                )
            }),
    {
        let (ix, first): (usize, bool) = match self.state {
            SamplePlaybackState::Stopped => {
                return 0;
            },
            SamplePlaybackState::First { ix } => (ix, true),
            SamplePlaybackState::Repeating { ix } => (ix, false),
        };
        let len = self.signal.length();
        let past_end: bool = match self.repeat {
            Some((st, le)) => (ix as u128) >= (st as u128) + (le as u128),
            None => ix >= len,
        };
        if past_end {
            match self.repeat {
                Some((st, _le)) => {
                    let raw = if st < len {
                        self.signal.get(st)
                    } else {
                        0
                    };
                    self.state = SamplePlaybackState::Repeating { ix: sat_inc(st) };
                    scale_volume(raw, self.volume)
                },
                None => {
                    self.state = SamplePlaybackState::Stopped;
                    0
                },
            }
        } else {
            let raw = if ix < len {
                self.signal.get(ix)
            } else {
                0
            };
            self.state = if first {
                SamplePlaybackState::First { ix: sat_inc(ix) }
            } else {
                SamplePlaybackState::Repeating { ix: sat_inc(ix) }
            };
            scale_volume(raw, self.volume)
        }
    }
}

impl<S: FixedSignal> Enveloped for SamplePlayback<S> {
    /// Start (or hard-retrigger) the voice from the beginning.
    fn trigger_start(&mut self)
        ensures
            final(self).spec_state() == (SamplePlaybackState::First { ix: 0 }),
            final(self).spec_signal() == old(self).spec_signal(),
            final(self).spec_repeat() == old(self).spec_repeat(),
            final(self).spec_volume() == old(self).spec_volume(),
    {
        self.state = SamplePlaybackState::First { ix: 0 };
    }

    /// Cut the voice immediately; no release tail at this layer.
    fn trigger_end(&mut self)
        ensures
            final(self).spec_state() == SamplePlaybackState::Stopped,
            final(self).spec_signal() == old(self).spec_signal(),
            final(self).spec_repeat() == old(self).spec_repeat(),
            final(self).spec_volume() == old(self).spec_volume(),
    {
        self.state = SamplePlaybackState::Stopped;
    }
}

/// The signal type a module voice plays: the sample's PCM data resampled to
/// pitch and converted to normalized amplitudes.
pub type ModSignal = Converter<Interpolator<Vec<i8>>>;

/// `amount * 2` source bytes scaled by the pitch ratio
/// `rate * 5588000 / (17734473 * decihz)` and floored; at most the machine
/// limit. The ratio restates `rate / ((7093789.2 / 508) / (4400 / decihz))`
/// over the integers.
pub open spec fn spec_scaled2(amount: int, rate: int, decihz: int) -> int {
    let q = (amount * 2 * rate * 5588000) / (17734473 * decihz);
    if q > usize::MAX as int {
        usize::MAX as int
    } else {
        q
    }
}

/// The resampled length a voice plays at: the PCM byte count scaled by the
/// pitch ratio `rate * 5588000 / (17734473 * decihz)` and rounded to the
/// nearest integer; at most the machine limit.
pub open spec fn spec_play_len(len: int, rate: int, decihz: int) -> int {
    let num = len * rate * 5588000;
    let den = 17734473 * decihz;
    let q = (2 * num + den) / (2 * den);
    if q > usize::MAX as int {
        usize::MAX as int
    } else {
        q
    }
}

/// The loop window a voice of this sample plays with: none unless the
/// declared loop length exceeds one word; otherwise the declared bounds,
/// scaled like the data and clamped to the resampled length.
pub open spec fn spec_play_repeat(s: Sample, rate: int, decihz: int) -> Option<(usize, usize)> {
    if s.repeat_length > 1 {
        let tlen = spec_play_len(s.data@.len() as int, rate, decihz);
        let st = spec_scaled2(s.repeat_start as int, rate, decihz);
        let le = spec_scaled2(s.repeat_length as int, rate, decihz);
        Some(
            (
                (if st <= tlen { st } else { tlen }) as usize,
                (if le <= tlen { le } else { tlen }) as usize,
            ),
        )
    } else {
        None
    }
}

/// `amount * 2 * rate * 5588000`, exactly, in 128 bits.
fn scale_numerator(amount: usize, rate: u32) -> (r: u128)
    ensures
        r == amount as int * 2 * rate * 5588000,
        r < 0x4000000000000000000000000000000,
{
    proof {
        let a = amount as int;
        let rr = rate as int;
        assert(0 <= a * 2 * rr && a * 2 * rr < 0x20000000000000000 * 0x100000000 && 0 <= a * 2
            * rr * 5588000 && a * 2 * rr * 5588000 < 0x4000000000000000000000000000000)
            by (nonlinear_arith)
            requires
                0 <= a,
                a < 0x10000000000000000,
                0 <= rr,
                rr < 0x100000000,
        ;
    }
    (amount as u128) * 2 * (rate as u128) * 5588000
}

fn scaled2(amount: usize, rate: u32, decihz: u32) -> (r: usize)
    requires
        decihz > 0,
    ensures
        r == spec_scaled2(amount as int, rate as int, decihz as int),
{
    let num: u128 = scale_numerator(amount, rate);
    let den: u128 = 17734473 * (decihz as u128);
    let q: u128 = num / den;
    if q > usize::MAX as u128 {
        usize::MAX
    } else {
        q as usize
    }
}

fn play_length(len: usize, rate: u32, decihz: u32) -> (r: usize)
    requires
        decihz > 0,
    ensures
        r == spec_play_len(len as int, rate as int, decihz as int),
{
    let num2: u128 = scale_numerator(len, rate);
    let den: u128 = 17734473 * (decihz as u128);
    let q: u128 = (num2 + den) / (2 * den);
    proof {
        let a = len as int;
        let rr = rate as int;
        assert(a * 2 * rr * 5588000 == 2 * (a * rr * 5588000)) by (nonlinear_arith);
    }
    if q > usize::MAX as u128 {
        usize::MAX
    } else {
        q as usize
    }
}

impl Sample {
    /// Build a voice that plays this sample at the pitch of `note` on an
    /// output running at `sample_rate`: the PCM data is resampled to
    /// [`spec_play_len`], converted to normalized amplitudes, given the
    /// sample's volume, and handed back stopped, with the loop window of
    /// [`spec_play_repeat`].
    pub fn play(&self, note: Note, sample_rate: u32) -> (r: SamplePlayback<ModSignal>)
        requires
            note.spec_freq() > 0,
        ensures
            r.spec_signal() == converted(
                resampled(
                    self.data@,
                    spec_play_len(
                        self.data@.len() as int,
                        sample_rate as int,
                        note.spec_freq() as int,
                    ) as nat,
                ),
            ),
            r.spec_repeat() == spec_play_repeat(*self, sample_rate as int, note.spec_freq() as int),
            r.spec_state() == SamplePlaybackState::Stopped,
            r.spec_volume() == self.volume,
    {
        let decihz = note.decihz();
        let tlen = play_length(self.data.len(), sample_rate, decihz);
        let mut repeat: Option<(usize, usize)> = None;
        if self.repeat_length > 1 {
            let st0 = scaled2(self.repeat_start, sample_rate, decihz);
            let le0 = scaled2(self.repeat_length, sample_rate, decihz);
            let st = if st0 <= tlen {
                st0
            } else {
                tlen
            };
            let le = if le0 <= tlen {
                le0
            } else {
                tlen
            };
            repeat = Some((st, le));
        }
        let data_copy: Vec<i8> = vstd::slice::slice_to_vec(self.data.as_slice());
        let interp = Interpolator::new(data_copy, tlen);
        let conv = Converter::new(interp);
        SamplePlayback::new(conv, repeat, self.volume)
    }
}

} // verus!
