use toysynth::notes::{Note, NoteApprox};

#[test]
fn note_octave_steps_scale_the_frequency() {
    let a4 = Note::new(4400);
    assert_eq!(a4.decihz(), 4400);
    assert_eq!(a4.octave_up().decihz(), 8800);
    assert_eq!(a4.octave_down().decihz(), 2200);
    // Halving rounds down on odd frequencies.
    assert_eq!(Note::new(4401).octave_down().decihz(), 2200);
}

#[test]
fn nearby_notes_share_a_quantized_key() {
    // Deci-hertz is the quantization step, so equal deci-hertz frequencies
    // collapse onto one key and different ones stay apart.
    let k1 = NoteApprox::from(Note::new(4400));
    let k2 = NoteApprox::from(Note::new(4400));
    let k3 = NoteApprox::from(Note::new(4401));
    assert_eq!(k1, k2);
    assert_ne!(k1, k3);
    assert!(k1 < k3);
}
