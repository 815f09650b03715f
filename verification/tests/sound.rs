use toysynth::dsp::{Converter, Interpolator, FIXED_ONE};
use toysynth::notes::{Note, NoteApprox};
use toysynth::playback::SamplePlayback;
use toysynth::promod::Sample;
use toysynth::sound::{
    ADSRParams, Enveloped, Generator, PolyphonicGenerator, VoiceConfig, ADSR,
};
use toysynth::synth::{AnyWaveform, Oscillator, WaveformKind};

fn quarter_params() -> ADSRParams {
    // Attack over 4 samples, decay over 4, sustain at half scale, release
    // over 4.
    ADSRParams { a: 4, d: 4, s_level: FIXED_ONE / 2, r: 4 }
}

#[test]
fn adsr_follows_all_four_phases() {
    let mut e = ADSR::new(&quarter_params());
    assert_eq!(e.next(), None);
    e.trigger_start();
    // Attack: a linear ramp up from silence.
    assert_eq!(e.next(), Some(0));
    assert_eq!(e.next(), Some(FIXED_ONE / 4));
    assert_eq!(e.next(), Some(FIXED_ONE / 2));
    assert_eq!(e.next(), Some(FIXED_ONE * 3 / 4));
    // Decay: a linear ramp down toward the sustain level.
    assert_eq!(e.next(), Some(FIXED_ONE));
    assert_eq!(e.next(), Some(FIXED_ONE - FIXED_ONE / 8));
    assert_eq!(e.next(), Some(FIXED_ONE - FIXED_ONE / 4));
    assert_eq!(e.next(), Some(FIXED_ONE - FIXED_ONE * 3 / 8));
    // Sustain: holds the sustain level for as long as the key is down.
    assert_eq!(e.next(), Some(FIXED_ONE / 2));
    assert_eq!(e.next(), Some(FIXED_ONE / 2));
    assert_eq!(e.next(), Some(FIXED_ONE / 2));
    // Release: a linear ramp down to silence, then nothing.
    e.trigger_end();
    assert_eq!(e.next(), Some(FIXED_ONE / 2));
    assert_eq!(e.next(), Some(FIXED_ONE / 2 - FIXED_ONE / 8));
    assert_eq!(e.next(), Some(FIXED_ONE / 4));
    assert_eq!(e.next(), Some(FIXED_ONE / 8));
    assert_eq!(e.next(), None);
    assert_eq!(e.next(), None);
}

#[test]
fn adsr_levels_are_monotone_per_phase() {
    // The attack never decreases, the decay never increases and ends at the
    // sustain level, and the release never increases and ends silent.
    let p = ADSRParams { a: 37, d: 23, s_level: 21000, r: 41 };
    let mut e = ADSR::new(&p);
    e.trigger_start();
    let mut prev = -1i32;
    for _ in 0..37 {
        let v = e.next().unwrap();
        assert!(v >= prev);
        prev = v;
    }
    let mut prev = i32::MAX;
    for _ in 0..24 {
        let v = e.next().unwrap();
        assert!(v <= prev);
        assert!(v >= p.s_level);
        prev = v;
    }
    for _ in 0..10 {
        assert_eq!(e.next(), Some(p.s_level));
    }
    e.trigger_end();
    let mut prev = i32::MAX;
    for _ in 0..41 {
        let v = e.next().unwrap();
        assert!(v <= prev);
        assert!(v >= 0);
        assert!(v <= p.s_level);
        prev = v;
    }
    assert_eq!(e.next(), None);
}

#[test]
fn square_oscillator_alternates_half_cycles() {
    // 2.5 Hz at 10 samples per second: a 4-sample cycle.
    let mut o = Oscillator::new(10, WaveformKind::Square.new(25));
    let full = FIXED_ONE * 9 / 10;
    assert_eq!(o.next(), -full);
    assert_eq!(o.next(), -full);
    assert_eq!(o.next(), full);
    assert_eq!(o.next(), full);
    assert_eq!(o.next(), -full);
}

#[test]
fn sine_oscillator_peaks_mid_half_cycle() {
    let mut o = Oscillator::new(10, WaveformKind::Sine.new(25));
    assert_eq!(o.next(), 0);
    // Phase 25 of a half cycle of 50: the approximation's exact peak.
    assert_eq!(o.next(), FIXED_ONE * 9 / 10);
    assert_eq!(o.next(), 0);
    // Phase 75: the trough.
    assert_eq!(o.next(), -(FIXED_ONE * 9 / 10));
    assert_eq!(o.next(), 0);
}

#[test]
fn sample_playback_reads_then_stops_without_loop() {
    let pcm = vec![127i8, 0i8, -128i8];
    let sig = Converter::new(Interpolator::new(pcm, 3));
    let mut sp = SamplePlayback::new(sig, None, 64);
    // Not yet triggered: silent.
    assert_eq!(sp.next(), 0);
    sp.trigger_start();
    assert_eq!(sp.next(), FIXED_ONE);
    assert_eq!(sp.next(), 128);
    assert_eq!(sp.next(), -FIXED_ONE);
    // Past the end: one stopping step, then silence for good.
    assert_eq!(sp.next(), 0);
    assert_eq!(sp.next(), 0);
}

#[test]
fn sample_playback_wraps_into_loop_window() {
    let pcm = vec![10i8, 20i8, 30i8, 40i8];
    let sig = Converter::new(Interpolator::new(pcm, 4));
    // Loop window of two samples starting at index 1.
    let mut sp = SamplePlayback::new(sig, Some((1, 2)), 64);
    sp.trigger_start();
    let v = |raw: i32| (2 * raw + 1) * 128;
    assert_eq!(sp.next(), v(10));
    assert_eq!(sp.next(), v(20));
    assert_eq!(sp.next(), v(30));
    // Index 3 is past the window (1 + 2): wrap to the loop start.
    assert_eq!(sp.next(), v(20));
    assert_eq!(sp.next(), v(30));
    assert_eq!(sp.next(), v(20));
}

#[test]
fn sample_playback_scales_by_volume() {
    let pcm = vec![127i8];
    let sig = Converter::new(Interpolator::new(pcm, 1));
    let mut sp = SamplePlayback::new(sig, None, 32);
    sp.trigger_start();
    assert_eq!(sp.next(), FIXED_ONE / 2);
    assert_eq!(sp.volume(), 32);
    sp.set_volume(16);
    assert_eq!(sp.volume(), 16);
}

fn synth_config() -> VoiceConfig {
    VoiceConfig::Synth { kind: WaveformKind::Sine, params: quarter_params(), sample_rate: 44100 }
}

#[test]
fn pool_restart_replaces_voice_not_layers() {
    // Two notes with the same quantized key: the second start must replace
    // the first voice, leaving a single entry in the pool.
    let mut pool = PolyphonicGenerator::new(synth_config());
    let n1 = Note::new(4400);
    let n2 = Note::new(4400);
    assert_eq!(NoteApprox::from(n1), NoteApprox::from(n2));
    pool.start(n1);
    assert_eq!(pool.voice_count(), 1);
    pool.start(n2);
    assert_eq!(pool.voice_count(), 1);
    assert_eq!(pool.key_at(0), 4400);
    // A distinct key adds a second voice.
    pool.start(Note::new(4401));
    assert_eq!(pool.voice_count(), 2);
}

#[test]
fn pool_stop_keeps_the_entry() {
    let mut pool = PolyphonicGenerator::new(synth_config());
    pool.start(Note::new(4400));
    pool.stop(Note::new(4400));
    assert_eq!(pool.voice_count(), 1);
    // Stopping an unknown key is ignored.
    pool.stop(Note::new(9999));
    assert_eq!(pool.voice_count(), 1);
}

#[test]
fn pool_records_scope_and_mixes() {
    // A square voice at 2.5 Hz over 10 samples per second, with an
    // instantaneous full envelope.
    let params = ADSRParams { a: 0, d: 0, s_level: FIXED_ONE, r: 1 };
    let cfg = VoiceConfig::Synth { kind: WaveformKind::Square, params, sample_rate: 10 };
    let mut pool = PolyphonicGenerator::new(cfg);
    pool.start(Note::new(25));
    let full = FIXED_ONE * 9 / 10;
    let first = pool.next();
    // One voice at 3/10 weight.
    assert_eq!(first, -full * 3 / 10);
    assert_eq!(pool.scope_at(0)[0], -full);
    assert_eq!(pool.scope_at(0)[1], 0);
    let _ = pool.next();
    assert_eq!(pool.scope_at(0)[1], -full);
    let _ = pool.next();
    assert_eq!(pool.scope_at(0)[2], full);
}

#[test]
fn pool_plays_sampled_voices() {
    let sample = Sample {
        name: String::from("ONE"),
        length: 2,
        finetune: 0,
        volume: 64,
        repeat_start: 0,
        repeat_length: 0,
        data: vec![127i8, 127i8, 127i8, 127i8],
    };
    let cfg = VoiceConfig::Sampled { sample, sample_rate: 44100 };
    let mut pool = PolyphonicGenerator::new(cfg);
    pool.start(Note::new(2611));
    let v = pool.next();
    // The first resampled sample of a constant full-scale signal, at full
    // volume and 3/10 mix weight.
    assert_eq!(v, FIXED_ONE * 3 / 10);
}
