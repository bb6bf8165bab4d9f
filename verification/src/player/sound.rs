//! Pitches, octaves and sounds.
//!
//! A pitch class is a semitone step counted from A (`spec_position`, with
//! A = 1); an octave is a semitone offset from the reference octave four.
//! Together they place a note `k` semitones away from A4 (440 Hz), whose
//! frequency is then `440 * 2^(k / 12)`.  That last, real-valued step is the
//! renderer's job; the core works with the exact semitone offset, and `Space`
//! — the rest — is the one pitch with no offset at all, rendered as silence.

use vstd::prelude::*;

use crate::player::tempo::Duration;

verus! {

/// The pitch classes: `Space` is a rest; the others step up from A in
/// semitones.
#[derive(Debug, Clone, Copy, PartialEq, Eq, Structural)]
pub enum Note {
    Space,
    A,
    ASharp,
    B,
    C,
    CSharp,
    D,
    DSharp,
    E,
    F,
    FSharp,
    G,
    GSharp,
}

/// Octaves as semitone offsets from octave four (A4 = 440 Hz).
#[derive(Debug, Clone, Copy, PartialEq, Eq, Structural)]
pub enum Octave {
    One,
    Two,
    Three,
    Four,
    Five,
    Six,
    Seven,
    Eight,
}

impl Octave {
    /// The semitone offset of this octave from octave four.
    pub open spec fn spec_offset(self) -> int {
        match self {
            Octave::One => -36,
            Octave::Two => -24,
            Octave::Three => -12,
            Octave::Four => 0,
            Octave::Five => 12,
            Octave::Six => 24,
            Octave::Seven => 36,
            Octave::Eight => 48,
        }
    }

    /// The semitone offset of this octave from octave four.
    pub fn offset(&self) -> (r: i32)
        ensures
            r == self.spec_offset(),
    {
        match self {
            Octave::One => -36,
            Octave::Two => -24,
            Octave::Three => -12,
            Octave::Four => 0,
            Octave::Five => 12,
            Octave::Six => 24,
            Octave::Seven => 36,
            Octave::Eight => 48,
        }
    }
}

impl Note {
    /// The positional value of the pitch, counting A = 1; `Space` is 0.
    pub open spec fn spec_position(self) -> int {
        match self {
            Note::Space => 0,
            Note::A => 1,
            Note::ASharp => 2,
            Note::B => 3,
            Note::C => 4,
            Note::CSharp => 5,
            Note::D => 6,
            Note::DSharp => 7,
            Note::E => 8,
            Note::F => 9,
            Note::FSharp => 10,
            Note::G => 11,
            Note::GSharp => 12,
        }
    }

    /// Whether this pitch is the rest, which sounds as silence.
    pub open spec fn spec_is_silent(self) -> bool {
        self is Space
    }

    /// Where the note sits relative to A4, in semitones: a note `n` at octave
    /// `o` is `n.position - 1 + o.offset` semitones from A4, so its frequency
    /// is `440 * 2^(offset / 12)` Hz.  `Space` has no offset: it is silent.
    pub open spec fn spec_semitone_offset(self, octave: Octave) -> Option<int> {
        if self is Space {
            None
        } else {
            Some(self.spec_position() - 1 + octave.spec_offset())
        }
    }

    /// Whether this pitch is the rest.
    pub fn is_silent(&self) -> (r: bool)
        ensures
            r == self.spec_is_silent(),
    {
        matches!(self, Note::Space)
    }

    /// The note's semitone offset from A4, `None` for the silent rest.
    pub fn semitone_offset(&self, octave: &Octave) -> (r: Option<i32>)
        ensures
            r matches Some(k) ==> self.spec_semitone_offset(*octave) == Some(k as int),
            r is None <==> self.spec_semitone_offset(*octave) is None,
    {
        if self.is_silent() {
            return None;
        }
        let position: i32 = match self {
            Note::Space => 0,
            Note::A => 1,
            Note::ASharp => 2,
            Note::B => 3,
            Note::C => 4,
            Note::CSharp => 5,
            Note::D => 6,
            Note::DSharp => 7,
            Note::E => 8,
            Note::F => 9,
            Note::FSharp => 10,
            Note::G => 11,
            Note::GSharp => 12,
        };
        Some(position - 1 + self.octave_offset_exec(octave))
    }

    fn octave_offset_exec(&self, octave: &Octave) -> (r: i32)
        ensures
            r == octave.spec_offset(),
    {
        octave.offset()
    }
}

/// Every pitch other than the rest sounds: it has a semitone offset from A4,
/// and hence the positive frequency `440 * 2^(offset / 12)`; the rest has
/// none and is rendered as exact silence.
pub proof fn lemma_non_space_sounds(n: Note, o: Octave)
    ensures
        !n.spec_is_silent() ==> n.spec_semitone_offset(o) is Some,
        n.spec_is_silent() ==> n.spec_semitone_offset(o) is None,
{
}

/// A at octave four is the reference pitch: zero semitones from A4, so its
/// frequency is exactly `440 * 2^0 == 440` Hz.
pub proof fn lemma_reference_pitch()
    ensures
        Note::A.spec_semitone_offset(Octave::Four) == Some(0int),
{
}

/// A per-voice frequency modulator.  A widening vibrato carries its depth
/// and speed; the modulation signal itself is a function of the voice clock,
/// computed at render time.
#[derive(Debug, Clone, Copy, PartialEq, Eq, Structural)]
pub struct Vibrato {
    pub depth: i32,
    pub speed: i32,
}

impl Vibrato {
    /// A vibrato of the given depth and speed.
    pub fn new(depth: i32, speed: i32) -> (r: Self)
        ensures
            r == (Vibrato { depth, speed }),
    {
        Self { depth, speed }
    }
}

/// The effects a sound can carry.
#[derive(Debug, Clone, Copy, PartialEq, Eq, Structural)]
pub enum Effect {
    Vibrato(Vibrato),
}

/// One note of a score: a pitch at an octave, held for a duration, with an
/// optional list of effects.
#[derive(Debug)]
pub struct Sound {
    pub note: Note,
    pub octave: Octave,
    pub duration: Duration,
    pub effects: Option<Vec<Effect>>,
}

/// The mathematical shape of a `Sound`: the same fields with the effect list
/// as a sequence.
pub struct SoundModel {
    pub note: Note,
    pub octave: Octave,
    pub duration: Duration,
    pub effects: Option<Seq<Effect>>,
}

impl View for Sound {
    type V = SoundModel;

    open spec fn view(&self) -> SoundModel {
        SoundModel {
            note: self.note,
            octave: self.octave,
            duration: self.duration,
            effects: match self.effects {
                Some(v) => Some(v@),
                None => None,
            },
        }
    }
}

impl DeepView for Sound {
    type V = SoundModel;

    open spec fn deep_view(&self) -> SoundModel {
        self.view()
    }
}

impl Sound {
    /// A plain sound with no effects.
    pub fn new(note: Note, octave: Octave, duration: Duration) -> (r: Self)
        ensures
            r@ == (SoundModel { note, octave, duration, effects: None }),
    {
        Self { note, octave, duration, effects: None }
    }

    /// An equal copy of this sound.
    pub fn dup(&self) -> (r: Self)
        ensures
            r@ == self@,
    {
        let effects: Option<Vec<Effect>> = match &self.effects {
            Some(v) => Some(dup_effects(v)),
            None => None,
        };
        Sound { note: self.note, octave: self.octave, duration: self.duration, effects }
    }
}

/// An equal copy of an effect list.
pub fn dup_effects(v: &Vec<Effect>) -> (r: Vec<Effect>)
    ensures
        r@ == v@,
{
    let mut out: Vec<Effect> = Vec::new();
    let mut i: usize = 0;
    while i < v.len()
        invariant
            i <= v@.len(),
            out@ == v@.subrange(0, i as int),
        decreases v@.len() - i,
    {
        out.push(v[i]);
        proof {
            assert(out@ =~= v@.subrange(0, i + 1));
        }
        i = i + 1;
    }
    proof {
        assert(out@ =~= v@);
    }
    out
}

/// An equal copy of a list of sounds.
pub fn dup_sounds(v: &Vec<Sound>) -> (r: Vec<Sound>)
    ensures
        r.deep_view() == v.deep_view(),
{
    let mut out: Vec<Sound> = Vec::new();
    let mut i: usize = 0;
    while i < v.len()
        invariant
            i <= v@.len(),
            out@.len() == i,
            forall|j: int| 0 <= j < i ==> out@[j]@ == v@[j]@,
        decreases v@.len() - i,
    {
        let d = v[i].dup();
        out.push(d);
        i = i + 1;
    }
    proof {
        assert forall|j: int| 0 <= j < v@.len() implies out.deep_view()[j]
            == v.deep_view()[j] by {
            assert(out@[j]@ == v@[j]@);
        }
        assert(out.deep_view() =~= v.deep_view());
    }
    out
}

} // verus!
