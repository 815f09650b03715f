//! Lazy, composable finite signals of audio samples.
//!
//! Two sample domains appear in this crate: raw 8-bit signed PCM (`i8`, as
//! stored in module files) and normalized amplitudes. Because the engine is
//! integer-only, a normalized amplitude is a fixed-point `i32` where
//! [`FIXED_ONE`] stands for full scale `1.0` and `-FIXED_ONE` for `-1.0`.
//! `FIXED_ONE` is `255 * 128`, so that converting a PCM byte to a normalized
//! amplitude is exact: the byte `r` maps to `(2 * r + 1) * 128`, sending
//! `-128` to exactly `-FIXED_ONE` and `127` to exactly `FIXED_ONE`.
//!
//! Signals are lazy views: a transform owns its source and recomputes each
//! sample on demand; nothing is materialized when transforms are composed.

use vstd::prelude::*;
use vstd::arithmetic::div_mod::{
    lemma_div_is_ordered, lemma_div_pos_is_pos, lemma_hoist_over_denominator,
    lemma_multiply_divide_le, lemma_fundamental_div_mod, lemma_div_multiples_vanish,
};
use vstd::arithmetic::mul::{
    lemma_mul_inequality, lemma_mul_nonnegative, lemma_mul_unary_negation,
};

verus! {

/// Full scale of a normalized fixed-point amplitude (`255 * 128`).
pub const FIXED_ONE: i32 = 32640;

/// Mathematical image of a raw PCM byte in the fixed-point amplitude domain:
/// `((r + 128) / 255 - 1/2) * 2` scaled by `FIXED_ONE`, which simplifies to
/// `(2 * r + 1) * 128`.
pub open spec fn pcm_to_fixed(r: i8) -> int {
    (2 * r + 1) * 128
}

/// Truncating division (rounding toward zero), for a positive divisor.
/// This is what a float-to-integer cast does to an exact quotient, and what
/// Rust's `/` does on signed integers.
pub open spec fn tdiv(a: int, b: int) -> int {
    if a >= 0 {
        a / b
    } else {
        -((-a) / b)
    }
}

/// Truncating division never moves further from zero when the numerator grows.
pub proof fn lemma_tdiv_mono(a: int, b: int, d: int)
    requires
        a <= b,
        0 < d,
    ensures
        tdiv(a, d) <= tdiv(b, d),
{
    if a >= 0 {
        lemma_div_is_ordered(a, b, d);
    } else if b >= 0 {
        lemma_div_pos_is_pos(-a, d);
        lemma_div_pos_is_pos(b, d);
    } else {
        lemma_div_is_ordered(-b, -a, d);
    }
}

/// Flooring division is superadditive on nonnegative numerators.
pub proof fn lemma_div_sum_le(a: int, b: int, d: int)
    requires
        0 <= a,
        0 <= b,
        0 < d,
    ensures
        a / d + b / d <= (a + b) / d,
{
    lemma_fundamental_div_mod(a, d);
    lemma_fundamental_div_mod(b, d);
    let q = a / d + b / d;
    let x = a % d + b % d;
    assert(x + q * d == a + b) by (nonlinear_arith)
        requires
            a == d * (a / d) + a % d,
            b == d * (b / d) + b % d,
            q == a / d + b / d,
            x == a % d + b % d,
    ;
    lemma_hoist_over_denominator(x, q, d as nat);
    lemma_div_pos_is_pos(x, d);
}

/// A weighted average of two byte-range values, with each term truncated
/// toward zero, stays in the byte range.
pub proof fn lemma_weighted_sum_bounds(v0: int, v1: int, w0: int, w1: int, d: int)
    requires
        -128 <= v0 <= 127,
        -128 <= v1 <= 127,
        0 <= w0,
        0 <= w1,
        w0 + w1 == d,
        0 < d,
    ensures
        -128 <= tdiv(v0 * w0, d) + tdiv(v1 * w1, d) <= 127,
{
    lemma_mul_nonnegative(127, w0);
    lemma_mul_nonnegative(127, w1);
    lemma_mul_nonnegative(128, w0);
    lemma_mul_nonnegative(128, w1);
    // Upper bound.
    lemma_mul_inequality(v0, 127, w0);
    lemma_mul_inequality(v1, 127, w1);
    lemma_tdiv_mono(v0 * w0, 127 * w0, d);
    lemma_tdiv_mono(v1 * w1, 127 * w1, d);
    lemma_div_sum_le(127 * w0, 127 * w1, d);
    assert(127 * w0 + 127 * w1 == 127 * d);
    lemma_div_multiples_vanish(127, d);
    // Lower bound.
    lemma_mul_inequality(-128, v0, w0);
    lemma_mul_inequality(-128, v1, w1);
    lemma_tdiv_mono(-128 * w0, v0 * w0, d);
    lemma_tdiv_mono(-128 * w1, v1 * w1, d);
    lemma_div_sum_le(128 * w0, 128 * w1, d);
    assert(128 * w0 + 128 * w1 == 128 * d);
    lemma_div_multiples_vanish(128, d);
}

/// A finite sequence of raw 8-bit PCM samples, read lazily.
pub trait Signal: Sized {
    /// The mathematical contents of the signal.
    spec fn sig(&self) -> Seq<i8>;

    fn length(&self) -> (n: usize)
        ensures
            n == self.sig().len(),
    ;

    fn get(&self, ix: usize) -> (r: i8)
        requires
            ix < self.sig().len(),
        ensures
            r == self.sig()[ix as int],
    ;
}

/// A finite sequence of normalized fixed-point samples, read lazily.
pub trait FixedSignal: Sized {
    /// The mathematical contents of the signal.
    spec fn fsig(&self) -> Seq<i32>;

    fn length(&self) -> (n: usize)
        ensures
            n == self.fsig().len(),
    ;

    fn get(&self, ix: usize) -> (r: i32)
        requires
            ix < self.fsig().len(),
        ensures
            r == self.fsig()[ix as int],
    ;
}

impl Signal for Vec<i8> {
    open spec fn sig(&self) -> Seq<i8> {
        self@
    }

    fn length(&self) -> usize {
        self.len()
    }

    fn get(&self, ix: usize) -> i8 {
        self[ix]
    }
}

/// The sample that linear resampling of `src` to length `tlen` yields at
/// index `ix`, as an integer in the byte range.
///
/// An empty source resamples to silence, and a one-sample source (or a
/// one-sample target) to a constant signal. Otherwise index `ix` falls at
/// source position `ix * (src.len() - 1) / (tlen - 1)`; the two neighbouring
/// source samples are blended by the distance to each, every term truncated
/// toward zero, and the right edge reads the last sample directly.
pub open spec fn resampled_at(src: Seq<i8>, tlen: int, ix: int) -> int
    recommends
        0 <= ix < tlen,
{
    if src.len() == 0 {
        0
    } else if src.len() == 1 || tlen <= 1 {
        src[0] as int
    } else {
        let den = tlen - 1;
        let num = ix * (src.len() - 1);
        let u0 = num / den;
        let rem = num % den;
        if u0 == src.len() - 1 {
            src[u0] as int
        } else {
            tdiv(src[u0] * (den - rem), den) + tdiv(src[u0 + 1] * rem, den)
        }
    }
}

/// The whole resampled image of `src` at length `tlen`.
pub open spec fn resampled(src: Seq<i8>, tlen: nat) -> Seq<i8> {
    Seq::new(tlen, |i: int| resampled_at(src, tlen as int, i) as i8)
}

/// Resampling yields exactly the requested target length, whatever the
/// source — the empty and one-sample sources included.
pub proof fn lemma_resampled_length(src: Seq<i8>, tlen: nat)
    ensures
        resampled(src, tlen).len() == tlen,
{
}

/// One blend term `v * w / d`, truncated toward zero.
fn weighted_term(v: i8, w: u64, d: u64) -> (t: i32)
    requires
        0 < d,
        w <= d,
    ensures
        t == tdiv(v as int * w as int, d as int),
        -128 <= t <= 127,
{
    let d128 = d as u128;
    if v >= 0 {
        proof {
            lemma_mul_nonnegative(v as int, w as int);
            lemma_mul_inequality(v as int, 127, w as int);
            lemma_mul_inequality(w as int, d as int, 127);
            lemma_multiply_divide_le(v as int * w as int, d as int, 127);
        }
        let m: u128 = (v as u128) * (w as u128);
        let q: u128 = m / d128;
        q as i32
    } else {
        let a: u32 = (-(v as i32)) as u32;
        proof {
            lemma_mul_nonnegative(a as int, w as int);
            lemma_mul_inequality(a as int, 128, w as int);
            lemma_mul_inequality(w as int, d as int, 128);
            lemma_multiply_divide_le(a as int * w as int, d as int, 128);
            lemma_mul_unary_negation(v as int, w as int);
            assert(a as int * w as int == -(v as int) * w as int);
        }
        let m: u128 = (a as u128) * (w as u128);
        let q: u128 = m / d128;
        -(q as i32)
    }
}

/// Lazy linear resampling of a signal to a chosen length.
pub struct Interpolator<S: Signal> {
    signal: S,
    length: usize,
}

impl<S: Signal> Interpolator<S> {
    /// The source signal being resampled.
    pub closed spec fn spec_source(&self) -> Seq<i8> {
        self.signal.sig()
    }

    pub fn new(signal: S, target_length: usize) -> (r: Self)
        ensures
            r.spec_source() == signal.sig(),
            r.sig() == resampled(signal.sig(), target_length as nat),
            r.sig().len() == target_length,
    {
        Interpolator { signal, length: target_length }
    }
}

impl<S: Signal> Signal for Interpolator<S> {
    closed spec fn sig(&self) -> Seq<i8> {
        resampled(self.signal.sig(), self.length as nat)
    }

    fn length(&self) -> usize {
        self.length
    }

    fn get(&self, ix: usize) -> (r: i8) {
        let slen = self.signal.length();
        if slen == 0 {
            return 0;
        }
        if slen == 1 || self.length <= 1 {
            return self.signal.get(0);
        }
        let den: u64 = (self.length - 1) as u64;
        proof {
            lemma_mul_inequality(ix as int, den as int, (slen - 1) as int);
            lemma_mul_nonnegative(ix as int, (slen - 1) as int);
            lemma_multiply_divide_le(ix as int * (slen - 1) as int, den as int, (slen - 1) as int);
            let dd = den as int;
            let sl1 = (slen - 1) as int;
            assert(dd * sl1 < 0x10000000000000000 * 0x10000000000000000) by (nonlinear_arith)
                requires
                    0 <= dd,
                    dd < 0x10000000000000000,
                    0 <= sl1,
                    sl1 < 0x10000000000000000,
            ;
        }
        let num: u128 = (ix as u128) * ((slen - 1) as u128);
        let u0w: u128 = num / (den as u128);
        let rem: u128 = num % (den as u128);
        let u0: usize = u0w as usize;
        if u0 == slen - 1 {
            return self.signal.get(u0);
        }
        let v0 = self.signal.get(u0);
        let v1 = self.signal.get(u0 + 1);
        let w0: u64 = den - (rem as u64);
        let t0 = weighted_term(v0, w0, den);
        let t1 = weighted_term(v1, rem as u64, den);
        proof {
            lemma_weighted_sum_bounds(v0 as int, v1 as int, w0 as int, rem as int, den as int);
        }
        (t0 + t1) as i8
    }
}

/// Conversion into `Self` from sample domain `T`.
pub trait SampleConvertFrom<T>: Sized {
    /// The mathematical value of the conversion.
    spec fn spec_sample_convert_from(t: T) -> Self;

    fn sample_convert_from(t: T) -> (r: Self)
        ensures
            r == Self::spec_sample_convert_from(t),
    ;
}

/// Conversion of `Self` into sample domain `T`.
pub trait SampleConvertTo<T>: Sized {
    /// The mathematical value of the conversion.
    spec fn spec_sample_convert_to(&self) -> T;

    fn sample_convert_to(&self) -> (r: T)
        ensures
            r == self.spec_sample_convert_to(),
    ;
}

impl SampleConvertFrom<i8> for i32 {
    open spec fn spec_sample_convert_from(t: i8) -> i32 {
        pcm_to_fixed(t) as i32
    }

    fn sample_convert_from(t: i8) -> (r: i32)
        ensures
            r == pcm_to_fixed(t),
    {
        (2 * (t as i32) + 1) * 128
    }
}

impl SampleConvertTo<i32> for i8 {
    open spec fn spec_sample_convert_to(&self) -> i32 {
        pcm_to_fixed(*self) as i32
    }

    fn sample_convert_to(&self) -> (r: i32)
        ensures
            r == pcm_to_fixed(*self),
    {
        i32::sample_convert_from(*self)
    }
}

/// The image of a PCM signal in the fixed-point amplitude domain.
pub open spec fn converted(src: Seq<i8>) -> Seq<i32> {
    Seq::new(src.len(), |i: int| pcm_to_fixed(src[i]) as i32)
}

/// Lazy per-sample conversion of a PCM signal to normalized amplitudes.
pub struct Converter<S: Signal> {
    signal: S,
}

impl<S: Signal> Converter<S> {
    pub fn new(signal: S) -> (r: Self)
        ensures
            r.fsig() == converted(signal.sig()),
            r.fsig().len() == signal.sig().len(),
    {
        Converter { signal }
    }
}

impl<S: Signal> FixedSignal for Converter<S> {
    closed spec fn fsig(&self) -> Seq<i32> {
        converted(self.signal.sig())
    }

    fn length(&self) -> usize {
        self.signal.length()
    }

    fn get(&self, ix: usize) -> (r: i32) {
        i32::sample_convert_from(self.signal.get(ix))
    }
}

/// A fixed-point amplitude scaled by `vol / 64` and truncated toward zero,
/// saturated at the `i32` range.
pub open spec fn volume_scaled(v: int, vol: int) -> int {
    let t = tdiv(v * vol, 64);
    if t > i32::MAX {
        i32::MAX as int
    } else if t < i32::MIN {
        i32::MIN as int
    } else {
        t
    }
}

/// Scale a fixed-point amplitude by `vol / 64`, truncating toward zero.
pub fn scale_volume(v: i32, vol: u8) -> (r: i32)
    ensures
        r == volume_scaled(v as int, vol as int),
{
    proof {
        assert(i32::MIN as int * 255 <= (v as int) * (vol as int) <= i32::MAX as int * 255)
            by (nonlinear_arith)
            requires
                i32::MIN as int <= v as int <= i32::MAX as int,
                0 <= vol as int <= 255,
        ;
    }
    let m: i64 = (v as i64) * (vol as i64);
    let t: i64 = if m >= 0 {
        ((m as u64) / 64) as i64
    } else {
        let q: u64 = ((-m) as u64) / 64;
        -(q as i64)
    };
    proof {
        lemma_tdiv_mono(m as int, i32::MAX as int * 255, 64);
        lemma_tdiv_mono(i32::MIN as int * 255, m as int, 64);
    }
    if t > i32::MAX as i64 {
        i32::MAX
    } else if t < i32::MIN as i64 {
        i32::MIN
    } else {
        t as i32
    }
}

/// Lazy volume scaling of a normalized signal by `volume / 64`.
pub struct Volume<S: FixedSignal> {
    signal: S,
    volume: u8,
}

impl<S: FixedSignal> Volume<S> {
    pub fn new(signal: S, volume: u8) -> (r: Self)
        ensures
            r.fsig().len() == signal.fsig().len(),
            forall|i: int|
                0 <= i < signal.fsig().len() ==> r.fsig()[i] == volume_scaled(
                    signal.fsig()[i] as int,
                    volume as int,
                ),
    {
        Volume { signal, volume }
    }
}

impl<S: FixedSignal> FixedSignal for Volume<S> {
    closed spec fn fsig(&self) -> Seq<i32> {
        Seq::new(
            self.signal.fsig().len(),
            |i: int| volume_scaled(self.signal.fsig()[i] as int, self.volume as int) as i32,
        )
    }

    fn length(&self) -> usize {
        self.signal.length()
    }

    fn get(&self, ix: usize) -> (r: i32) {
        scale_volume(self.signal.get(ix), self.volume)
    }
}


/// Every converted PCM sample lies within full scale.
pub proof fn lemma_converted_bounded(src: Seq<i8>)
    ensures
        forall|k: int|
            0 <= k < converted(src).len() ==> -FIXED_ONE <= #[trigger] converted(src)[k]
                <= FIXED_ONE,
{
}

} // verus!
