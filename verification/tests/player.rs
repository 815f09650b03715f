use toysynth::player::Player;
use toysynth::promod::Module;
use toysynth::sound::Generator;

/// A module image with one sample, a chosen order table and chosen cells.
/// `cells` lists `(pattern, row, channel, value)`.
fn image_with_cells(order: &[u8], sample_words: u16, cells: &[(usize, usize, usize, u32)]) -> Vec<u8> {
    let mut b = Vec::new();
    b.extend_from_slice(b"CELLS");
    while b.len() < 20 {
        b.push(0);
    }
    b.extend_from_slice(b"ONE");
    while b.len() < 42 {
        b.push(0);
    }
    b.push((sample_words >> 8) as u8);
    b.push((sample_words & 0xff) as u8);
    b.push(0);
    b.push(64); // volume
    b.push(0);
    b.push(0);
    b.push(0);
    b.push(0);
    while b.len() < 950 {
        b.push(0);
    }
    b.push(order.len() as u8);
    b.push(0);
    let mut npat = 0u8;
    for o in order.iter() {
        b.push(*o);
        if *o > npat {
            npat = *o;
        }
    }
    while b.len() < 1080 {
        b.push(0);
    }
    b.extend_from_slice(b"M.K.");
    let npat = npat as usize + 1;
    while b.len() < 1084 + 1024 * npat {
        b.push(0);
    }
    for &(p, r, c, v) in cells {
        let off = 1084 + 1024 * p + 16 * r + 4 * c;
        b[off] = (v >> 24) as u8;
        b[off + 1] = (v >> 16) as u8;
        b[off + 2] = (v >> 8) as u8;
        b[off + 3] = v as u8;
    }
    // PCM data: a constant full-scale signal.
    for _ in 0..(2 * sample_words) {
        b.push(127);
    }
    b
}

#[test]
fn division_and_tick_lengths_at_native_timing() {
    // 125 beats per minute at 6 ticks per division give 24 * 125 / 6 = 500
    // divisions per minute: (60 / 500) * 44100 = 5292 samples per division
    // and 5292 / 6 = 882 per tick.
    let img = image_with_cells(&[0], 0, &[]);
    let m = Module::load(&img).unwrap();
    let p = Player::new(m, 44100);
    assert_eq!(p.division_left, 5292);
    assert_eq!(p.tick_left, 882);
    assert_eq!(p.native_bpm, 125);
    assert_eq!(p.native_tpd, 6);
}

#[test]
fn paused_player_is_silent_and_still() {
    let img = image_with_cells(&[0], 0, &[]);
    let m = Module::load(&img).unwrap();
    let mut p = Player::new(m, 44100);
    assert!(!p.playing);
    assert_eq!(p.next(), 0);
    assert_eq!(p.division_left, 5292);
    assert_eq!(p.row, 0);
}

#[test]
fn player_advances_rows_on_division_boundaries() {
    let img = image_with_cells(&[0], 0, &[]);
    let m = Module::load(&img).unwrap();
    let mut p = Player::new(m, 44100);
    p.playing = true;
    for _ in 0..5292 {
        assert_eq!(p.row, 0);
        let _ = p.next();
    }
    // The division countdown hit zero on the 5292nd sample's successor.
    let _ = p.next();
    assert_eq!(p.row, 1);
}

#[test]
fn player_applies_timing_effects_at_row_entry() {
    // Row 0 of the played pattern sets 250 beats per minute and 4 ticks per
    // division.
    let cells = [(0usize, 0usize, 0usize, 0xFFAu32), (0, 0, 1, 0xF04)];
    let img = image_with_cells(&[0], 0, &cells);
    let m = Module::load(&img).unwrap();
    let p = Player::new(m, 44100);
    assert_eq!(p.native_bpm, 250);
    assert_eq!(p.native_tpd, 4);
    // The first division still runs at the native default; the next one
    // will use the new timing: (60 / (24 * 250 / 4)) * 44100 = 1764.
    assert_eq!(p.division_left, 5292);
    let mut p = p;
    p.playing = true;
    for _ in 0..5293 {
        let _ = p.next();
    }
    assert_eq!(p.row, 1);
    assert_eq!(p.division_left, 1764);
}

#[test]
fn player_triggers_voices_and_mixes() {
    // Channel 0 plays sample 1 at period 428 from row 0.
    let cell = (1u32 << 12) | (428 << 16);
    let cells = [(0usize, 0usize, 0usize, cell)];
    let img = image_with_cells(&[0], 4, &cells);
    let m = Module::load(&img).unwrap();
    let mut p = Player::new(m, 44100);
    p.playing = true;
    // A full-scale sample at full volume, mixed at 3/10: the first output
    // sample reads the signal's left edge exactly.
    let v = p.next();
    assert_eq!(v, 32640 * 3 / 10);
    // The next reads fall between source samples; truncation in the blend
    // loses one PCM step.
    let v = p.next();
    assert_eq!(v, 32384 * 3 / 10);
}

#[test]
fn player_honors_pattern_break() {
    // Row 0 breaks to row 5 (of the next program entry, wrapping to the
    // same single pattern here).
    let cells = [(0usize, 0usize, 2usize, 0xD05u32)];
    let img = image_with_cells(&[0], 0, &cells);
    let m = Module::load(&img).unwrap();
    let mut p = Player::new(m, 44100);
    assert_eq!(p.incoming_break, Some(5));
    p.playing = true;
    for _ in 0..5293 {
        let _ = p.next();
    }
    assert_eq!(p.row, 5);
    assert_eq!(p.incoming_break, None);
}
