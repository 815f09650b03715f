use toysynth::dsp::{Converter, FixedSignal, Interpolator, Signal, Volume, FIXED_ONE};
use toysynth::dsp::{SampleConvertFrom, SampleConvertTo};

fn collect_i8<S: Signal>(s: &S) -> Vec<i8> {
    let mut out = Vec::new();
    let mut i = 0;
    while i < s.length() {
        out.push(s.get(i));
        i += 1;
    }
    out
}

fn collect_fixed<S: FixedSignal>(s: &S) -> Vec<i32> {
    let mut out = Vec::new();
    let mut i = 0;
    while i < s.length() {
        out.push(s.get(i));
        i += 1;
    }
    out
}

#[test]
fn test_resample_i8() {
    let input = vec![0i8, 0i8, 0i8, 0i8, 127i8, 127i8, 127i8, 127i8];
    let resampled = Interpolator::new(input, 10);
    assert_eq!(resampled.length(), 10);
    let resampled = collect_i8(&resampled);
    assert_eq!(resampled.len(), 10);
    assert_eq!(
        resampled,
        vec![0i8, 0i8, 0i8, 0i8, 14i8, 112i8, 126i8, 126i8, 126i8, 127i8,]
    );
}

#[test]
fn test_convert_i8_f32() {
    let input = vec![
        -128i8, -128i8, -128i8, -128i8, 0i8, 0i8, 0i8, 0i8, 127i8, 127i8, 127i8, 127i8,
    ];
    let converted = Converter::new(input);
    assert_eq!(converted.length(), 12);
    let converted: Vec<f32> = collect_fixed(&converted)
        .into_iter()
        .map(|v| (v as f32) / (FIXED_ONE as f32))
        .collect();
    assert_eq!(converted.len(), 12);
    assert_eq!(converted[0..4], vec![-1.0f32, -1.0f32, -1.0f32, -1.0f32]);
    assert_eq!(converted[8..12], vec![1.0f32, 1.0f32, 1.0f32, 1.0f32]);
}

#[test]
fn resample_length_always_matches_target() {
    // The resampled length equals the requested target length for every
    // source, the empty and one-sample sources included.
    let empty: Vec<i8> = vec![];
    assert_eq!(Interpolator::new(empty, 7).length(), 7);
    let one = vec![42i8];
    assert_eq!(Interpolator::new(one, 5).length(), 5);
    let some = vec![1i8, 2, 3];
    assert_eq!(Interpolator::new(some, 0).length(), 0);
    let some = vec![1i8, 2, 3];
    assert_eq!(Interpolator::new(some, 1000).length(), 1000);
}

#[test]
fn resample_empty_source_is_silent() {
    let empty: Vec<i8> = vec![];
    let r = Interpolator::new(empty, 4);
    assert_eq!(collect_i8(&r), vec![0i8, 0, 0, 0]);
}

#[test]
fn resample_singular_source_is_constant() {
    let one = vec![-7i8];
    let r = Interpolator::new(one, 4);
    assert_eq!(collect_i8(&r), vec![-7i8, -7, -7, -7]);
}

#[test]
fn convert_is_exact_at_extremes_and_monotone() {
    assert_eq!(i32::sample_convert_from(-128i8), -FIXED_ONE);
    assert_eq!(i32::sample_convert_from(127i8), FIXED_ONE);
    assert_eq!(i32::sample_convert_from(0i8), 128);
    assert_eq!((-1i8).sample_convert_to(), -128);
    let mut prev = i32::sample_convert_from(-128i8);
    let mut raw = -127i32;
    while raw <= 127 {
        let cur = i32::sample_convert_from(raw as i8);
        assert!(cur > prev);
        prev = cur;
        raw += 1;
    }
}

#[test]
fn volume_scales_by_64ths() {
    let input = vec![64i8, -64i8];
    let half = Volume::new(Converter::new(input), 32);
    let vals = collect_fixed(&half);
    // (2 * 64 + 1) * 128 = 16512; halved and truncated toward zero.
    assert_eq!(vals, vec![8256, -8128]);
    let input = vec![64i8];
    let full = Volume::new(Converter::new(input), 64);
    assert_eq!(collect_fixed(&full), vec![16512]);
    let input = vec![64i8];
    let muted = Volume::new(Converter::new(input), 0);
    assert_eq!(collect_fixed(&muted), vec![0]);
}
