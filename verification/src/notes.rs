//! Notes and their quantized identities.
//!
//! The engine is integer-only, so a note is held as its frequency in tenths
//! of a hertz (deci-hertz). One tenth of a hertz is also the resolution of
//! [`NoteApprox`], the key that collapses nearby frequencies onto one voice
//! identity, so converting a note to its key loses nothing further.

use vstd::prelude::*;

verus! {

/// A note, held as its frequency in deci-hertz (tenths of a hertz).
#[derive(Debug, Clone, Copy)]
pub struct Note {
    decihz: u32,
}

impl Note {
    /// The frequency in deci-hertz.
    pub closed spec fn spec_freq(&self) -> u32 {
        self.decihz
    }

    pub fn new(decihz: u32) -> (r: Note)
        ensures
            r.spec_freq() == decihz,
    {
        Note { decihz }
    }

    /// The frequency in deci-hertz.
    pub fn decihz(&self) -> (r: u32)
        ensures
            r == self.spec_freq(),
    {
        self.decihz
    }

    /// The note one octave higher (twice the frequency).
    pub fn octave_up(&self) -> (r: Note)
        requires
            2 * self.spec_freq() <= u32::MAX,
        ensures
            r.spec_freq() == 2 * self.spec_freq(),
    {
        Note { decihz: 2 * self.decihz }
    }

    /// The note one octave lower (half the frequency, rounded down).
    pub fn octave_down(&self) -> (r: Note)
        ensures
            r.spec_freq() == self.spec_freq() / 2,
    {
        Note { decihz: self.decihz / 2 }
    }
}

/// A note frequency quantized to deci-hertz: a stable equality and ordering
/// key that collapses nearby frequencies onto one voice identity.
#[derive(PartialEq, Eq, Structural, PartialOrd, Ord, Debug, Clone, Copy)]
pub struct NoteApprox(pub u32);

impl From<Note> for NoteApprox {
    fn from(value: Note) -> (r: NoteApprox)
        ensures
            r == NoteApprox(value.spec_freq()),
    {
        NoteApprox(value.decihz())
    }
}

impl vstd::std_specs::convert::FromSpecImpl<Note> for NoteApprox {
    open spec fn obeys_from_spec() -> bool {
        true
    }

    open spec fn from_spec(t: Note) -> Self {
        NoteApprox(t.spec_freq())
    }
}

} // verus!
