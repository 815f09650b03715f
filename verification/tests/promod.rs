use toysynth::promod::{Data, Effect, Error, Module};

/// Build a minimal module image: a title, one real sample header (the
/// others empty), an order table, one or more patterns of zeroed cells, and
/// the PCM data.
fn build_module_image(title: &[u8], sample0_words: u16, order0: u8, pcm: &[u8]) -> Vec<u8> {
    let mut b = Vec::new();
    // Title, padded to 20 bytes with zeros.
    b.extend_from_slice(title);
    while b.len() < 20 {
        b.push(0);
    }
    // Sample 0 header: 22-byte name, length, finetune, volume, loop.
    b.extend_from_slice(b"ONE");
    while b.len() < 20 + 22 {
        b.push(0);
    }
    b.push((sample0_words >> 8) as u8);
    b.push((sample0_words & 0xff) as u8);
    b.push(0); // finetune
    b.push(32); // volume
    b.push(0);
    b.push(0); // loop start
    b.push(0);
    b.push(0); // loop length
    // Samples 1..31: all-zero headers.
    while b.len() < 950 {
        b.push(0);
    }
    b.push(4); // song length (unused by the decoder)
    b.push(0); // reserved
    // Order table: first entry chosen, rest zero.
    b.push(order0);
    while b.len() < 1080 {
        b.push(0);
    }
    b.extend_from_slice(b"M.K.");
    // Patterns 0..=order0: 64 rows x 4 cells of 4 bytes.
    let npat = order0 as usize + 1;
    while b.len() < 1084 + 1024 * npat {
        b.push(0);
    }
    // Sample 0 PCM data.
    b.extend_from_slice(pcm);
    b
}

#[test]
fn load_decodes_every_field() {
    let img = build_module_image(b"TEST", 2, 1, &[1, 2, 253, 4]);
    let m = Module::load(&img).unwrap();
    assert_eq!(m.title, "TEST");
    assert_eq!(m.samples.len(), 31);
    assert_eq!(m.samples[0].name, "ONE");
    assert_eq!(m.samples[0].length, 2);
    assert_eq!(m.samples[0].volume, 32);
    assert_eq!(m.samples[0].repeat_length, 0);
    assert_eq!(m.samples[0].data, vec![1i8, 2, -3, 4]);
    assert_eq!(m.samples[1].length, 0);
    assert_eq!(m.patterns.len(), 2);
    assert_eq!(m.patterns[0].rows.len(), 64);
    assert_eq!(m.patterns[0].rows[0].channels.len(), 4);
    assert_eq!(m.program.len(), 128);
    assert_eq!(m.program[0], 1);
    assert_eq!(m.program[1], 0);
}

#[test]
fn load_decodes_multibyte_title() {
    let mut title = Vec::new();
    title.extend_from_slice("Grü".as_bytes());
    let img = build_module_image(&title, 0, 0, &[]);
    let m = Module::load(&img).unwrap();
    assert_eq!(m.title, "Grü");
    assert_eq!(m.title.chars().count(), 3);
}

#[test]
fn load_rejects_truncated_start() {
    assert!(matches!(Module::load(&[]), Err(Error::IOError)));
    assert!(matches!(Module::load(&[0u8; 19]), Err(Error::IOError)));
}

#[test]
fn load_rejects_bad_title_text() {
    let mut img = build_module_image(b"TEST", 0, 0, &[]);
    img[1] = 0xff;
    match Module::load(&img) {
        Err(Error::ParseError(m)) => assert_eq!(m, "invalid title"),
        _ => panic!("expected a title parse error"),
    }
}

#[test]
fn load_rejects_bad_sample_name_with_its_index() {
    let mut img = build_module_image(b"TEST", 0, 0, &[]);
    // Corrupt the name of sample 3 (header base 20 + 30 * 3).
    img[20 + 90] = 0xff;
    match Module::load(&img) {
        Err(Error::SampleError { sample, inner }) => {
            assert_eq!(sample, 3);
            assert!(matches!(*inner, Error::ParseError("invalid name")));
        },
        _ => panic!("expected a sample error"),
    }
}

#[test]
fn load_rejects_truncated_header_with_its_index() {
    let img = build_module_image(b"TEST", 0, 0, &[]);
    // Cut inside sample 2's header.
    match Module::load(&img[..20 + 60 + 10]) {
        Err(Error::SampleError { sample, inner }) => {
            assert_eq!(sample, 2);
            assert!(matches!(*inner, Error::IOError));
        },
        _ => panic!("expected a sample error"),
    }
}

#[test]
fn load_rejects_truncated_patterns() {
    let img = build_module_image(b"TEST", 0, 0, &[]);
    assert!(matches!(Module::load(&img[..1084]), Err(Error::IOError)));
    assert!(matches!(Module::load(&img[..1083]), Err(Error::IOError)));
    assert!(matches!(Module::load(&img[..1000]), Err(Error::IOError)));
}

#[test]
fn load_rejects_truncated_pcm_with_its_index() {
    let img = build_module_image(b"TEST", 2, 0, &[1, 2, 253]);
    match Module::load(&img) {
        Err(Error::SampleError { sample, inner }) => {
            assert_eq!(sample, 0);
            assert!(matches!(*inner, Error::IOError));
        },
        _ => panic!("expected a sample error"),
    }
}

#[test]
fn cell_decoding_unpacks_sample_period_effect() {
    // Sample number 0x12, period 856, effect bits 0x034.
    let v: u32 = (0x1 << 28) | (856 << 16) | (0x2 << 12) | 0x034;
    let d = Data(v);
    assert_eq!(d.sample_number(), 0x12);
    assert_eq!(d.period(), 856);
    assert!(matches!(d.effect(), Effect::Unknown));
    let n = d.note();
    // 440 * 254 * 10 / 856
    assert_eq!(n.decihz(), 1305);
}

#[test]
fn effect_decoding_covers_every_command() {
    assert!(matches!(Effect::from(0xA25), Effect::VolumeSlide { up: 2, down: 5 }));
    assert!(matches!(Effect::from(0xC30), Effect::SetVolume { volume: 48 }));
    assert!(matches!(Effect::from(0xD12), Effect::PatternBreak { division: 12 }));
    assert!(matches!(Effect::from(0xEA3), Effect::FineVolumeSlideUp { up: 3 }));
    assert!(matches!(Effect::from(0xEB4), Effect::FineVolumeSlideDown { down: 4 }));
    assert!(matches!(Effect::from(0xF06), Effect::SetTicksPerDivision { tpd: 6 }));
    assert!(matches!(Effect::from(0xF00), Effect::SetTicksPerDivision { tpd: 1 }));
    assert!(matches!(Effect::from(0xF20), Effect::SetTicksPerDivision { tpd: 32 }));
    assert!(matches!(Effect::from(0xF21), Effect::SetBeatsPerMinute { bpm: 33 }));
    assert!(matches!(Effect::from(0xF7D), Effect::SetBeatsPerMinute { bpm: 125 }));
    assert!(matches!(Effect::from(0x123), Effect::Unknown));
    assert!(matches!(Effect::from(0xEC1), Effect::Unknown));
}

#[test]
fn snote_renders_note_names() {
    let cell = |period: u32| Data(period << 16);
    assert_eq!(cell(0).snote(), "...");
    assert_eq!(cell(856).snote(), "C-3");
    assert_eq!(cell(428).snote(), "C-4");
    assert_eq!(cell(508).snote(), "A-3");
    assert_eq!(cell(113).snote(), "B-5");
    assert_eq!(cell(960).snote(), "A#2");
}
