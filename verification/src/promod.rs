//! The tracker module format: song data and its binary decoding.
//!
//! A module file holds a 20-byte title, 31 sample headers of 30 bytes each,
//! a song length byte and one reserved byte, a 128-byte pattern order table,
//! a 4-byte format signature, the pattern data (64 rows of 4 big-endian
//! 32-bit cells per pattern), and finally each sample's signed 8-bit PCM
//! data in declared order.

use vstd::prelude::*;
use crate::notes::Note;

verus! {

/// Failure taxonomy of module loading: the input ended early, a field held
/// malformed text, or a failure was scoped to one sample.
#[derive(Debug)]
pub enum Error {
    /// The input ended before a field could be read.
    IOError,
    /// A field was malformed; the text names it.
    ParseError(&'static str),
    /// A failure in sample number `sample` (counting from 0), wrapping its cause.
    SampleError { sample: usize, inner: Box<Error> },
}

/// One packed 32-bit pattern cell: sample number, period and effect.
#[derive(Debug, Clone, Copy)]
pub struct Data(pub u32);

/// The sample number packed into a cell: bits 31..28 form the high nibble
/// and bits 15..12 the low nibble.
pub open spec fn spec_sample_number(v: u32) -> u32 {
    ((v >> 28) & 0xf) << 4 | ((v >> 12) & 0xf)
}

/// The period packed into a cell: bits 27..16.
pub open spec fn spec_period(v: u32) -> u32 {
    (v >> 16) & 0xfff
}

/// The effect bits packed into a cell: bits 11..0.
pub open spec fn spec_effect_bits(v: u32) -> u32 {
    v & 0xfff
}

impl Data {
    pub fn sample_number(&self) -> (r: u8)
        ensures
            r == spec_sample_number(self.0),
    {
        let hi = (self.0 >> 28) & 0xf;
        let lo = (self.0 >> 12) & 0xf;
        proof {
            let v = self.0;
            assert(((v >> 28) & 0xf) << 4 | ((v >> 12) & 0xf) < 256u32) by (bit_vector);
        }
        ((hi << 4) | lo) as u8
    }

    pub fn period(&self) -> (r: u16)
        ensures
            r == spec_period(self.0),
    {
        proof {
            let v = self.0;
            assert((v >> 16) & 0xfff < 0x1000u32) by (bit_vector);
        }
        ((self.0 >> 16) & 0xfff) as u16
    }

    pub fn effect(&self) -> (r: Effect)
        ensures
            r == spec_effect_from(spec_effect_bits(self.0) as u16),
    {
        proof {
            let v = self.0;
            assert(v & 0xfff < 0x1000u32) by (bit_vector);
        }
        Effect::from((self.0 & 0xfff) as u16)
    }

    /// The note encoded by the period, at `freq = 440 * 254 / period` hertz,
    /// held in deci-hertz. A zero period encodes no note at all.
    pub fn note(&self) -> (r: Note)
        requires
            spec_period(self.0) != 0,
        ensures
            r.spec_freq() == 1117600 as u32 / spec_period(self.0),
    {
        let period = self.period();
        Note::new(1117600 / (period as u32))
    }
}

/// A tagged effect command, decoded from a cell's low 12 bits.
#[derive(Debug, Clone, Copy)]
pub enum Effect {
    /// Any command this engine does not model; a no-op.
    Unknown,
    /// Per-tick volume slide, armed for the row's remaining ticks.
    VolumeSlide { up: u8, down: u8 },
    /// Set the channel volume at row entry.
    SetVolume { volume: u16 },
    /// Jump to this row of the next pattern at the next division.
    PatternBreak { division: usize },
    /// One-off volume increase at row entry.
    FineVolumeSlideUp { up: u8 },
    /// One-off volume decrease at row entry.
    FineVolumeSlideDown { down: u8 },
    /// Set the timing to this many ticks per division.
    SetTicksPerDivision { tpd: u16 },
    /// Set the tempo to this many beats per minute.
    SetBeatsPerMinute { bpm: u16 },
}

/// The effect encoded by 12 bits, by top nibble `a`, middle nibble `b` and
/// low nibble `c`: `0xA` slides volume, `0xC` sets volume `b*16+c`, `0xD`
/// breaks to row `b*10+c` (decimal digits), `0xEA`/`0xEB` are fine volume
/// slides by `c`, and `0xF` sets ticks per division when `b*16+c` (floored
/// to 1) is at most 32, else beats per minute.
pub open spec fn spec_effect_from(v: u16) -> Effect {
    let a = (v >> 8) & 0xf;
    let b = (v >> 4) & 0xf;
    let c = v & 0xf;
    let z = b * 16 + c;
    if a == 0xa {
        Effect::VolumeSlide { up: b as u8, down: c as u8 }
    } else if a == 0xc {
        Effect::SetVolume { volume: z as u16 }
    } else if a == 0xd {
        Effect::PatternBreak { division: (b * 10 + c) as usize }
    } else if a == 0xe && b == 0xa {
        Effect::FineVolumeSlideUp { up: c as u8 }
    } else if a == 0xe && b == 0xb {
        Effect::FineVolumeSlideDown { down: c as u8 }
    } else if a == 0xf {
        let zz = if z == 0 { 1 } else { z as int };
        if zz <= 32 {
            Effect::SetTicksPerDivision { tpd: zz as u16 }
        } else {
            Effect::SetBeatsPerMinute { bpm: zz as u16 }
        }
    } else {
        Effect::Unknown
    }
}

impl Effect {
    pub fn from(v: u16) -> (r: Effect)
        ensures
            r == spec_effect_from(v),
    {
        let a = (v >> 8) & 0xf;
        let b = (v >> 4) & 0xf;
        let c = v & 0xf;
        proof {
            assert((v >> 8) & 0xf <= 0xf && (v >> 4) & 0xf <= 0xf && v & 0xf <= 0xf)
                by (bit_vector);
        }
        let mut z = b * 16 + c;
        match a {
            0xa => Effect::VolumeSlide { up: b as u8, down: c as u8 },
            0xc => Effect::SetVolume { volume: z },
            0xd => Effect::PatternBreak { division: (b * 10 + c) as usize },
            0xe => match b {
                0xa => Effect::FineVolumeSlideUp { up: c as u8 },
                0xb => Effect::FineVolumeSlideDown { down: c as u8 },
                _ => Effect::Unknown,
            },
            0xf => {
                if z == 0 {
                    z = 1;
                }
                if z <= 32 {
                    Effect::SetTicksPerDivision { tpd: z }
                } else {
                    Effect::SetBeatsPerMinute { bpm: z }
                }
            },
            _ => Effect::Unknown,
        }
    }
}

/// The decoded effect of a cell always carries in-range parameters: nibble
/// pairs stay below 256, a break row below 166, ticks per division in 1..=32
/// and a tempo in 33..=255.
pub proof fn lemma_effect_bounds(v: u16)
    ensures
        match spec_effect_from(v) {
            Effect::Unknown => true,
            Effect::VolumeSlide { up, down } => up <= 15 && down <= 15,
            Effect::SetVolume { volume } => volume <= 255,
            Effect::PatternBreak { division } => division <= 165,
            Effect::FineVolumeSlideUp { up } => up <= 15,
            Effect::FineVolumeSlideDown { down } => down <= 15,
            Effect::SetTicksPerDivision { tpd } => 1 <= tpd <= 32,
            Effect::SetBeatsPerMinute { bpm } => 32 < bpm <= 255,
        },
{
    assert((v >> 8) & 0xf <= 0xf && (v >> 4) & 0xf <= 0xf && v & 0xf <= 0xf) by (bit_vector);
}

/// One pattern: 64 rows of song data.
#[derive(Debug)]
pub struct Pattern {
    pub rows: Vec<Row>,
}

/// One row: one cell per channel, 4 channels.
#[derive(Debug)]
pub struct Row {
    pub channels: Vec<Data>,
}

/// A decoded instrument: its header fields and its signed 8-bit PCM data.
/// The declared length and the loop bounds are in 16-bit words, so the PCM
/// data holds `2 * length` bytes.
#[derive(Debug)]
pub struct Sample {
    pub name: String,
    pub length: usize,
    pub finetune: u8,
    pub volume: u8,
    pub repeat_start: usize,
    pub repeat_length: usize,
    pub data: Vec<i8>,
}

/// A decoded module: title, the 31 instruments, the patterns, and the play
/// order (the full 128-byte order table).
#[derive(Debug)]
pub struct Module {
    pub title: String,
    pub samples: Vec<Sample>,
    pub patterns: Vec<Pattern>,
    pub program: Vec<u8>,
}

/// The big-endian 16-bit value at byte offset `i`.
pub open spec fn spec_be16(b: Seq<u8>, i: int) -> int {
    b[i] * 256 + b[i + 1]
}

/// The big-endian 32-bit value at byte offset `i`.
pub open spec fn spec_be32(b: Seq<u8>, i: int) -> int {
    b[i] * 16777216 + b[i + 1] * 65536 + b[i + 2] * 256 + b[i + 3]
}

/// The byte `v` reinterpreted as a signed (two's complement) 8-bit value.
pub open spec fn spec_byte_i8(v: u8) -> i8 {
    if v < 128 {
        v as i8
    } else {
        (v - 256) as i8
    }
}

/// `s` with its trailing zero bytes removed.
pub open spec fn spec_trim_zeros(s: Seq<u8>) -> Seq<u8>
    decreases s.len(),
{
    if s.len() > 0 && s.last() == 0 {
        spec_trim_zeros(s.drop_last())
    } else {
        s
    }
}

/// Trimming trailing zeros keeps exactly the first `k` bytes, where `k` cuts
/// off precisely the trailing zero run.
pub proof fn lemma_trim_zeros_take(s: Seq<u8>, k: int)
    requires
        0 <= k <= s.len(),
        forall|j: int| k <= j < s.len() ==> s[j] == 0,
        k == 0 || s[k - 1] != 0,
    ensures
        spec_trim_zeros(s) == s.subrange(0, k),
    decreases s.len(),
{
    if s.len() == k {
        assert(s.subrange(0, k) =~= s);
    } else {
        assert(s.last() == 0);
        lemma_trim_zeros_take(s.drop_last(), k);
        assert(s.drop_last() =~= s.subrange(0, s.len() - 1));
        assert(s.drop_last().subrange(0, k) =~= s.subrange(0, k));
    }
}

/// Start of sample header `i` (22-byte name, 2-byte length, finetune byte,
/// volume byte, 2-byte loop start, 2-byte loop length).
pub open spec fn spec_header_base(i: int) -> int {
    20 + 30 * i
}

/// The name bytes of sample header `i`, with trailing zeros removed.
pub open spec fn spec_name_bytes(b: Seq<u8>, i: int) -> Seq<u8> {
    spec_trim_zeros(b.subrange(spec_header_base(i), spec_header_base(i) + 22))
}

/// The title bytes, with trailing zeros removed.
pub open spec fn spec_title_bytes(b: Seq<u8>) -> Seq<u8> {
    spec_trim_zeros(b.subrange(0, 20))
}

/// The declared length of sample `i` in 16-bit words.
pub open spec fn spec_sample_words(b: Seq<u8>, i: int) -> int {
    spec_be16(b, spec_header_base(i) + 22)
}

/// The largest of the first `n` entries of the 128-byte order table that
/// starts at offset 952.
pub open spec fn spec_ptable_max(b: Seq<u8>, n: int) -> int
    decreases n,
{
    if n <= 0 {
        0
    } else if b[952 + n - 1] > spec_ptable_max(b, n - 1) {
        b[952 + n - 1] as int
    } else {
        spec_ptable_max(b, n - 1)
    }
}

/// Every order table entry is bounded by the table's maximum.
pub proof fn lemma_ptable_max_bounds(b: Seq<u8>, n: int, k: int)
    requires
        0 <= k < n,
    ensures
        b[952 + k] <= spec_ptable_max(b, n),
    decreases n,
{
    if k < n - 1 {
        lemma_ptable_max_bounds(b, n - 1, k);
    }
}

/// How many patterns the file holds: one more than the largest order table
/// entry.
pub open spec fn spec_n_patterns(b: Seq<u8>) -> int {
    spec_ptable_max(b, 128) + 1
}

/// Offset one past the pattern data, which starts at 1084 and holds
/// 64 * 4 * 4 bytes per pattern.
pub open spec fn spec_patterns_end(b: Seq<u8>) -> int {
    1084 + 1024 * spec_n_patterns(b)
}

/// The packed value of cell `(r, c)` of pattern `j`.
pub open spec fn spec_cell(b: Seq<u8>, j: int, r: int, c: int) -> int {
    spec_be32(b, 1084 + 1024 * j + 16 * r + 4 * c)
}

/// Start of the PCM data of sample `i`: the samples' data follows the
/// pattern data in declared order, `2 * length` bytes each.
pub open spec fn spec_data_offset(b: Seq<u8>, i: int) -> int
    decreases i,
{
    if i <= 0 {
        spec_patterns_end(b)
    } else {
        spec_data_offset(b, i - 1) + 2 * spec_sample_words(b, i - 1)
    }
}

/// The PCM data of sample `i`, as signed bytes.
pub open spec fn spec_sample_data(b: Seq<u8>, i: int) -> Seq<i8> {
    Seq::new(
        (2 * spec_sample_words(b, i)) as nat,
        |k: int| spec_byte_i8(b[spec_data_offset(b, i) + k]),
    )
}

/// `s` holds exactly what header `i` and the data section of `b` declare.
pub open spec fn spec_sample_matches(b: Seq<u8>, i: int, s: Sample) -> bool {
    let o = spec_header_base(i);
    &&& s.name@ == vstd::utf8::decode_utf8(spec_name_bytes(b, i))
    &&& s.length == spec_sample_words(b, i)
    &&& s.finetune == b[o + 24]
    &&& s.volume == b[o + 25]
    &&& s.repeat_start == spec_be16(b, o + 26)
    &&& s.repeat_length == spec_be16(b, o + 28)
    &&& s.data@ == spec_sample_data(b, i)
}

/// Sample header `i` fails to decode: the input ends inside the header, or
/// the name is not valid text.
pub open spec fn spec_header_err(b: Seq<u8>, i: int) -> bool {
    b.len() < spec_header_base(i) + 30 || !vstd::utf8::valid_utf8(spec_name_bytes(b, i))
}

/// The PCM data of sample `i` is cut short by the end of the input.
pub open spec fn spec_data_err(b: Seq<u8>, i: int) -> bool {
    b.len() < spec_data_offset(b, i + 1)
}

/// The input is a well-formed module image: long enough for the fixed
/// header, title and sample names decode as text, and the pattern data and
/// every sample's PCM data fit.
pub open spec fn spec_module_ok(b: Seq<u8>) -> bool {
    &&& b.len() >= 1084
    &&& vstd::utf8::valid_utf8(spec_title_bytes(b))
    &&& forall|i: int| 0 <= i < 31 ==> !spec_header_err(b, i)
    &&& b.len() >= spec_patterns_end(b)
    &&& forall|i: int| 0 <= i < 31 ==> !spec_data_err(b, i)
}

/// `m` holds exactly what the module image `b` declares.
pub open spec fn spec_module_matches(b: Seq<u8>, m: Module) -> bool {
    &&& m.title@ == vstd::utf8::decode_utf8(spec_title_bytes(b))
    &&& m.samples.len() == 31
    &&& forall|i: int| 0 <= i < 31 ==> spec_sample_matches(b, i, #[trigger] m.samples[i])
    &&& m.patterns.len() == spec_n_patterns(b)
    &&& forall|j: int| 0 <= j < m.patterns.len() ==> (#[trigger] m.patterns[j]).rows.len() == 64
    &&& forall|j: int, r: int|
        0 <= j < m.patterns.len() && 0 <= r < 64 ==> (#[trigger] m.patterns[j].rows[r]).channels.len() == 4
    &&& forall|j: int, r: int, c: int|
        0 <= j < m.patterns.len() && 0 <= r < 64 && 0 <= c < 4 ==> (#[trigger] m.patterns[j].rows[r].channels[c]).0 == spec_cell(b, j, r, c)
    &&& m.program@ == b.subrange(952, 1080)
}

/// The structural facts every decoded module obeys, whatever image it came
/// from: 31 samples whose data length doubles the declared word count, at
/// least one pattern of 64 rows by 4 channels, and a 128-entry play order
/// whose entries all point at existing patterns.
pub open spec fn spec_module_wf(m: Module) -> bool {
    &&& m.samples.len() == 31
    &&& forall|i: int|
        0 <= i < 31 ==> (#[trigger] m.samples[i]).data.len() == 2 * m.samples[i].length
    &&& 1 <= m.patterns.len() <= 256
    &&& forall|j: int| 0 <= j < m.patterns.len() ==> (#[trigger] m.patterns[j]).rows.len() == 64
    &&& forall|j: int, r: int|
        0 <= j < m.patterns.len() && 0 <= r < 64 ==> (#[trigger] m.patterns[j].rows[r]).channels.len() == 4
    &&& m.program.len() == 128
    &&& forall|k: int| 0 <= k < 128 ==> (#[trigger] m.program@[k]) < m.patterns.len()
}

/// `e` is the error that decoding `b` reports: the earliest stage that
/// fails, in reading order, wins; sample-scoped failures name the sample.
pub open spec fn spec_load_error(b: Seq<u8>, e: Error) -> bool {
    if b.len() < 20 {
        e is IOError
    } else if !vstd::utf8::valid_utf8(spec_title_bytes(b)) {
        e matches Error::ParseError(m) && m@ == "invalid title"@
    } else if exists|i: int| 0 <= i < 31 && spec_header_err(b, i) {
        e matches Error::SampleError { sample, inner }
            && 0 <= sample < 31
            && spec_header_err(b, sample as int)
            && (forall|j: int| 0 <= j < sample ==> !spec_header_err(b, j))
            && (if b.len() < spec_header_base(sample as int) + 22 {
                *inner is IOError
            } else if !vstd::utf8::valid_utf8(spec_name_bytes(b, sample as int)) {
                *inner matches Error::ParseError(m) && m@ == "invalid name"@
            } else {
                *inner is IOError
            })
    } else if b.len() < 1084 || b.len() < spec_patterns_end(b) {
        e is IOError
    } else {
        e matches Error::SampleError { sample, inner }
            && 0 <= sample < 31
            && spec_data_err(b, sample as int)
            && (forall|j: int| 0 <= j < sample ==> !spec_data_err(b, j))
            && *inner is IOError
    }
}

fn read_be_u16(b: &[u8], off: usize) -> (r: u16)
    requires
        off + 2 <= b@.len(),
    ensures
        r == spec_be16(b@, off as int),
{
    (b[off] as u16) * 256 + (b[off + 1] as u16)
}

fn read_be_u32(b: &[u8], off: usize) -> (r: u32)
    requires
        off + 4 <= b@.len(),
    ensures
        r == spec_be32(b@, off as int),
{
    (b[off] as u32) * 16777216 + (b[off + 1] as u32) * 65536 + (b[off + 2] as u32) * 256 + (b[off
        + 3] as u32)
}

fn byte_to_i8(v: u8) -> (r: i8)
    ensures
        r == spec_byte_i8(v),
{
    if v < 128 {
        v as i8
    } else {
        ((v as i16) - 256) as i8
    }
}

/// Relies on std::str::from_utf8: it succeeds exactly on the byte sequences
/// that vstd's UTF-8 model accepts, and yields their decoding.
#[verifier::external_body]
fn decode_text(bytes: &[u8]) -> (r: Option<String>)
    ensures
        r is Some <==> vstd::utf8::valid_utf8(bytes@),
        r matches Some(s) ==> s@ == vstd::utf8::decode_utf8(bytes@),
{
    match std::str::from_utf8(bytes) {
        Ok(s) => Some(s.to_owned()),
        Err(_) => None,
    }
}

/// Decode the bytes `[start, end)` as text after removing trailing zeros.
fn read_text(b: &[u8], start: usize, end: usize) -> (r: Option<String>)
    requires
        start <= end <= b@.len(),
    ensures
        r is Some <==> vstd::utf8::valid_utf8(
            spec_trim_zeros(b@.subrange(start as int, end as int)),
        ),
        r matches Some(s) ==> s@ == vstd::utf8::decode_utf8(
            spec_trim_zeros(b@.subrange(start as int, end as int)),
        ),
{
    let ghost whole = b@.subrange(start as int, end as int);
    let mut k = end;
    while k > start && b[k - 1] == 0
        invariant
            start <= k <= end <= b@.len(),
            forall|j: int| k <= j < end ==> b@[j] == 0,
        decreases k,
    {
        k = k - 1;
    }
    proof {
        assert(forall|j: int| k - start <= j < whole.len() ==> whole[j] == 0);
        assert(k - start == 0 || whole[k - start - 1] != 0);
        lemma_trim_zeros_take(whole, k - start);
        assert(whole.subrange(0, k - start) =~= b@.subrange(start as int, k as int));
    }
    let trimmed = vstd::slice::slice_subrange(b, start, k);
    decode_text(trimmed)
}

/// `s` holds what header `i` declares, its data still empty.
pub open spec fn spec_header_fields_match(b: Seq<u8>, i: int, s: Sample) -> bool {
    let o = spec_header_base(i);
    &&& s.name@ == vstd::utf8::decode_utf8(spec_name_bytes(b, i))
    &&& s.length == spec_sample_words(b, i)
    &&& s.finetune == b[o + 24]
    &&& s.volume == b[o + 25]
    &&& s.repeat_start == spec_be16(b, o + 26)
    &&& s.repeat_length == spec_be16(b, o + 28)
}

impl Module {
    /// Decode a module image.
    ///
    /// Succeeds exactly on well-formed images and then returns every field
    /// the image declares; fails atomically otherwise, reporting the first
    /// failing stage in reading order.
    pub fn load(bytes: &[u8]) -> (r: Result<Module, Error>)
        ensures
            r matches Ok(m) ==> spec_module_ok(bytes@) && spec_module_matches(bytes@, m)
                && spec_module_wf(m),
            r matches Err(e) ==> !spec_module_ok(bytes@) && spec_load_error(bytes@, e),
    {
        let ghost b = bytes@;
        let n = bytes.len();
        if n < 20 {
            return Err(Error::IOError);
        }
        let title = match read_text(bytes, 0, 20) {
            Some(t) => t,
            None => {
                return Err(Error::ParseError("invalid title"));
            },
        };

        let mut headers: Vec<Sample> = Vec::new();
        let mut i: usize = 0;
        while i < 31
            invariant
                i <= 31,
                headers.len() == i,
                n == b.len(),
                bytes@ == b,
                n >= 20,
                vstd::utf8::valid_utf8(spec_title_bytes(b)),
                title@ == vstd::utf8::decode_utf8(spec_title_bytes(b)),
                forall|k: int| 0 <= k < i ==> !spec_header_err(b, k),
                forall|k: int|
                    0 <= k < i ==> spec_header_fields_match(b, k, #[trigger] headers@[k]),
            decreases 31 - i,
        {
            let base = 20 + 30 * i;
            if n < base + 22 {
                proof {
                    assert(spec_header_err(b, i as int));
                }
                return Err(Error::SampleError { sample: i, inner: Box::new(Error::IOError) });
            }
            let name = match read_text(bytes, base, base + 22) {
                Some(t) => t,
                None => {
                    proof {
                        assert(spec_header_err(b, i as int));
                    }
                    return Err(
                        Error::SampleError {
                            sample: i,
                            inner: Box::new(Error::ParseError("invalid name")),
                        },
                    );
                },
            };
            if n < base + 30 {
                proof {
                    assert(spec_header_err(b, i as int));
                }
                return Err(Error::SampleError { sample: i, inner: Box::new(Error::IOError) });
            }
            let length = read_be_u16(bytes, base + 22) as usize;
            let finetune = bytes[base + 24];
            let volume = bytes[base + 25];
            let repeat_start = read_be_u16(bytes, base + 26) as usize;
            let repeat_length = read_be_u16(bytes, base + 28) as usize;
            headers.push(
                Sample {
                    name,
                    length,
                    finetune,
                    volume,
                    repeat_start,
                    repeat_length,
                    data: Vec::new(),
                },
            );
            i = i + 1;
        }

        if n < 1084 {
            return Err(Error::IOError);
        }

        let mut maxp: u8 = 0;
        let mut k: usize = 0;
        while k < 128
            invariant
                k <= 128,
                n == b.len(),
                bytes@ == b,
                n >= 1084,
                maxp == spec_ptable_max(b, k as int),
            decreases 128 - k,
        {
            let v = bytes[952 + k];
            if v > maxp {
                maxp = v;
            }
            k = k + 1;
        }
        let npat: usize = maxp as usize + 1;
        let pat_end: usize = 1084 + 1024 * npat;
        if n < pat_end {
            return Err(Error::IOError);
        }

        let mut patterns: Vec<Pattern> = Vec::new();
        let mut j: usize = 0;
        while j < npat
            invariant
                j <= npat,
                patterns.len() == j,
                n == b.len(),
                bytes@ == b,
                npat == spec_n_patterns(b),
                pat_end == spec_patterns_end(b),
                n >= pat_end,
                n >= 1084,
                forall|a: int| 0 <= a < j ==> (#[trigger] patterns@[a]).rows.len() == 64,
                forall|a: int, rr: int|
                    0 <= a < j && 0 <= rr < 64 ==> (#[trigger] patterns@[a].rows[rr]).channels.len() == 4,
                forall|a: int, rr: int, cc: int|
                    0 <= a < j && 0 <= rr < 64 && 0 <= cc < 4 ==> (#[trigger] patterns@[a].rows[rr].channels[cc]).0 == spec_cell(b, a, rr, cc),
            decreases npat - j,
        {
            let mut rows: Vec<Row> = Vec::new();
            let mut r: usize = 0;
            while r < 64
                invariant
                    r <= 64,
                    rows.len() == r,
                    j < npat,
                    n == b.len(),
                    bytes@ == b,
                    pat_end == spec_patterns_end(b),
                    npat == spec_n_patterns(b),
                    n >= pat_end,
                    forall|rr: int| 0 <= rr < r ==> (#[trigger] rows@[rr]).channels.len() == 4,
                    forall|rr: int, cc: int|
                        0 <= rr < r && 0 <= cc < 4 ==> (#[trigger] rows@[rr].channels[cc]).0 == spec_cell(b, j as int, rr, cc),
                decreases 64 - r,
            {
                let mut channels: Vec<Data> = Vec::new();
                let mut c: usize = 0;
                while c < 4
                    invariant
                        c <= 4,
                        channels.len() == c,
                        j < npat,
                        r < 64,
                        n == b.len(),
                        bytes@ == b,
                        pat_end == spec_patterns_end(b),
                        npat == spec_n_patterns(b),
                        n >= pat_end,
                        forall|cc: int|
                            0 <= cc < c ==> (#[trigger] channels@[cc]).0 == spec_cell(
                                b,
                                j as int,
                                r as int,
                                cc,
                            ),
                    decreases 4 - c,
                {
                    let off = 1084 + 1024 * j + 16 * r + 4 * c;
                    let cell = read_be_u32(bytes, off);
                    channels.push(Data(cell));
                    c = c + 1;
                }
                rows.push(Row { channels });
                r = r + 1;
            }
            patterns.push(Pattern { rows });
            j = j + 1;
        }

        let mut samples: Vec<Sample> = Vec::new();
        let mut off: usize = pat_end;
        let mut si: usize = 0;
        while si < 31
            invariant
                si <= 31,
                samples.len() == si,
                headers.len() == 31,
                n == b.len(),
                bytes@ == b,
                n >= 1084,
                npat == spec_n_patterns(b),
                pat_end == spec_patterns_end(b),
                n >= pat_end,
                off == spec_data_offset(b, si as int),
                off >= pat_end,
                off <= n,
                vstd::utf8::valid_utf8(spec_title_bytes(b)),
                forall|k: int| 0 <= k < 31 ==> !spec_header_err(b, k),
                forall|k: int|
                    0 <= k < 31 ==> spec_header_fields_match(b, k, #[trigger] headers@[k]),
                forall|k: int| 0 <= k < si ==> !spec_data_err(b, k),
                forall|k: int| 0 <= k < si ==> spec_sample_matches(b, k, #[trigger] samples@[k]),
            decreases 31 - si,
        {
            let header = &headers[si];
            let need: usize = 2 * header.length;
            if n - off < need {
                proof {
                    assert(spec_data_err(b, si as int));
                }
                return Err(Error::SampleError { sample: si, inner: Box::new(Error::IOError) });
            }
            let mut data: Vec<i8> = Vec::new();
            let mut t: usize = 0;
            while t < need
                invariant
                    t <= need,
                    data.len() == t,
                    n == b.len(),
                    bytes@ == b,
                    off + need <= n,
                    forall|q: int| 0 <= q < t ==> data@[q] == spec_byte_i8(b[off + q]),
                decreases need - t,
            {
                data.push(byte_to_i8(bytes[off + t]));
                t = t + 1;
            }
            proof {
                assert(data@ =~= spec_sample_data(b, si as int));
            }
            samples.push(
                Sample {
                    name: header.name.clone(),
                    length: header.length,
                    finetune: header.finetune,
                    volume: header.volume,
                    repeat_start: header.repeat_start,
                    repeat_length: header.repeat_length,
                    data,
                },
            );
            off = off + need;
            si = si + 1;
        }

        let program: Vec<u8> = vstd::slice::slice_to_vec(
            vstd::slice::slice_subrange(bytes, 952, 1080),
        );
        let m = Module { title, samples, patterns, program };
        proof {
            assert forall|k: int| 0 <= k < 128 implies (#[trigger] m.program@[k])
                < m.patterns.len() by {
                lemma_ptable_max_bounds(b, 128, k);
            }
        }
        Ok(m)
    }
}

/// The period normalized into the displayable octave: periods above 856 are
/// halved, and short periods are doubled octave by octave until they land
/// near the 453..=856 range (as far as one table step reaches).
pub open spec fn spec_snote_base(p: u16) -> int {
    if p > 856 {
        (p / 2) as int
    } else if p < 113 {
        p * 8
    } else if p < 226 {
        p * 4
    } else if p < 453 {
        p * 2
    } else {
        p as int
    }
}

/// The octave digit displayed for a period, from '2' for the longest
/// periods up to '6' for the shortest.
pub open spec fn spec_snote_octave(p: u16) -> int {
    if p > 856 {
        2
    } else if p < 113 {
        6
    } else if p < 226 {
        5
    } else if p < 453 {
        4
    } else {
        3
    }
}

/// The semitone a normalized period is nearest to, by the geometric
/// midpoints between the equal-tempered periods descending from 856 (the
/// period of C): a midpoint table stands in for rounding a logarithm.
/// Periods beyond either end take the nearest entry.
pub open spec fn spec_semitone(np: int) -> int {
    if np > 831 {
        0
    } else if np > 784 {
        1
    } else if np > 740 {
        2
    } else if np > 699 {
        3
    } else if np > 660 {
        4
    } else if np > 622 {
        5
    } else if np > 588 {
        6
    } else if np > 555 {
        7
    } else if np > 523 {
        8
    } else if np > 494 {
        9
    } else if np > 466 {
        10
    } else {
        11
    }
}

/// The two-character name of a semitone, counted up from C.
pub open spec fn spec_note_name(hs: int) -> Seq<char> {
    if hs == 0 {
        "C-"@
    } else if hs == 1 {
        "C#"@
    } else if hs == 2 {
        "D-"@
    } else if hs == 3 {
        "D#"@
    } else if hs == 4 {
        "E-"@
    } else if hs == 5 {
        "F-"@
    } else if hs == 6 {
        "F#"@
    } else if hs == 7 {
        "G-"@
    } else if hs == 8 {
        "G#"@
    } else if hs == 9 {
        "A-"@
    } else if hs == 10 {
        "A#"@
    } else {
        "B-"@
    }
}

/// The digit character of an octave in 2..=6.
pub open spec fn spec_octave_digit(oct: int) -> Seq<char> {
    if oct == 2 {
        "2"@
    } else if oct == 3 {
        "3"@
    } else if oct == 4 {
        "4"@
    } else if oct == 5 {
        "5"@
    } else {
        "6"@
    }
}

/// The display name of the note a cell encodes: "..." for no note, else the
/// nearest note name followed by its octave digit.
pub open spec fn spec_snote(v: u32) -> Seq<char> {
    if spec_period(v) == 0 {
        "..."@
    } else {
        spec_note_name(spec_semitone(spec_snote_base(spec_period(v) as u16))) + spec_octave_digit(
            spec_snote_octave(spec_period(v) as u16),
        )
    }
}

impl Data {
    /// Render the cell's note as text: "..." when the cell has no note,
    /// else a name such as "A#3".
    pub fn snote(&self) -> (r: String)
        ensures
            r@ == spec_snote(self.0),
    {
        let period = self.period();
        if period == 0 {
            return String::from_str("...");
        }
        let (np, oct): (u16, u8) = if period > 856 {
            (period / 2, 2)
        } else if period < 113 {
            (period * 8, 6)
        } else if period < 226 {
            (period * 4, 5)
        } else if period < 453 {
            (period * 2, 4)
        } else {
            (period, 3)
        };
        let name: &str = if np > 831 {
            "C-"
        } else if np > 784 {
            "C#"
        } else if np > 740 {
            "D-"
        } else if np > 699 {
            "D#"
        } else if np > 660 {
            "E-"
        } else if np > 622 {
            "F-"
        } else if np > 588 {
            "F#"
        } else if np > 555 {
            "G-"
        } else if np > 523 {
            "G#"
        } else if np > 494 {
            "A-"
        } else if np > 466 {
            "A#"
        } else {
            "B-"
        };
        let digit: &str = if oct == 2 {
            "2"
        } else if oct == 3 {
            "3"
        } else if oct == 4 {
            "4"
        } else if oct == 5 {
            "5"
        } else {
            "6"
        };
        String::from_str(name).concat(digit)
    }
}

} // verus!
