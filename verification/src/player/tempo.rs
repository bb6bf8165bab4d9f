//! Tempo and duration arithmetic, and the per-voice sample clock.
//!
//! A `Duration` is a note length in beats (a beat is a quarter-note); every
//! length in the table is a whole number of sixteenths of a beat, so beat
//! arithmetic is done exactly over integers.  `calc_duration` turns a
//! duration at a given tempo and sample rate into a length in whole output
//! frames, and `SampleClock` counts those frames down for one voice.

use vstd::prelude::*;

verus! {

/// Error raised by tempo bookkeeping on a song.
#[derive(Debug)]
pub enum TempoErr {
    InvalidOp { left: u32, right: u32, op: String, msg: String },
}

/// A tempo change: a value in beats per minute, taking effect at a beat.
#[derive(Debug)]
pub struct Tempo {
    pub value: u32,
    pub from_beat: u32,
}

/// Note lengths, from a whole note down to a thirty-second, with their
/// dotted forms.
#[derive(Debug, Clone, Copy, PartialEq, Eq, Structural)]
pub enum Duration {
    Whole,
    HalfDotted,
    Half,
    QuarterDotted,
    Quarter,
    EightDotted,
    Eight,
    SixteenthDotted,
    Sixteenth,
    ThirtySecondDotted,
    ThirtySecond,
}

impl Duration {
    /// The length of this duration in sixteenths of a beat: a quarter-note
    /// (one beat) is 16, a whole note 64, a thirty-second note 2.
    pub open spec fn spec_beats_16(self) -> int {
        match self {
            Duration::Whole => 64,
            Duration::HalfDotted => 48,
            Duration::Half => 32,
            Duration::QuarterDotted => 24,
            Duration::Quarter => 16,
            Duration::EightDotted => 12,
            Duration::Eight => 8,
            Duration::SixteenthDotted => 6,
            Duration::Sixteenth => 4,
            Duration::ThirtySecondDotted => 3,
            Duration::ThirtySecond => 2,
        }
    }

    /// The length of this duration in sixteenths of a beat.
    pub fn to_beats_16(&self) -> (r: u32)
        ensures
            r == self.spec_beats_16(),
    {
        match self {
            Duration::Whole => 64,
            Duration::HalfDotted => 48,
            Duration::Half => 32,
            Duration::QuarterDotted => 24,
            Duration::Quarter => 16,
            Duration::EightDotted => 12,
            Duration::Eight => 8,
            Duration::SixteenthDotted => 6,
            Duration::Sixteenth => 4,
            Duration::ThirtySecondDotted => 3,
            Duration::ThirtySecond => 2,
        }
    }
}

/// The length of one note of duration `dur` in whole output frames:
/// `(sample_rate / (bpm / 60)) * beats`, computed exactly over the integers
/// and truncated to a whole number of frames.
pub open spec fn spec_duration_frames(sample_rate: int, beat_per_min: int, dur: Duration) -> int
    recommends
        beat_per_min > 0,
{
    (sample_rate * 60 * dur.spec_beats_16()) / (16 * beat_per_min)
}

/// Frames-per-note at the given sample rate and tempo.
pub fn calc_duration(sample_rate: u32, beat_per_min: u32, duration: &Duration) -> (frames: u64)
    requires
        beat_per_min > 0,
    ensures
        frames == spec_duration_frames(sample_rate as int, beat_per_min as int, *duration),
{
    let beats: u64 = duration.to_beats_16() as u64;
    assert(beats <= 64);
    let num: u64 = (sample_rate as u64) * 60 * beats;
    num / (16 * (beat_per_min as u64))
}

/// A per-voice countdown in whole output frames.  `cur` counts the frames
/// ticked so far; when it reaches the target `dur` the clock ends, and the
/// `ended` flag is never cleared again.
#[derive(Debug, Clone, Copy, PartialEq, Eq, Structural)]
pub struct SampleClock {
    pub dur: u64,
    pub cur: u64,
    pub ended: bool,
}

/// One tick of a sample clock: once the counter has reached the target the
/// clock is marked ended (and the counter stays put, so it cannot wrap);
/// otherwise the counter advances by one frame.
pub open spec fn clock_ticked(c: SampleClock) -> SampleClock {
    if c.cur >= c.dur {
        SampleClock { dur: c.dur, cur: c.cur, ended: true }
    } else {
        SampleClock { dur: c.dur, cur: (c.cur + 1) as u64, ended: c.ended }
    }
}

/// `n` ticks of a sample clock.
pub open spec fn clock_ticked_n(c: SampleClock, n: nat) -> SampleClock
    decreases n,
{
    if n == 0 {
        c
    } else {
        clock_ticked(clock_ticked_n(c, (n - 1) as nat))
    }
}

impl SampleClock {
    /// A fresh clock that will run for `dur` frames.
    pub fn new(dur: u64) -> (r: Self)
        ensures
            r == (SampleClock { dur, cur: 0, ended: false }),
    {
        Self { dur, cur: 0, ended: false }
    }

    /// Advance the clock by one frame: sets the sticky `ended` flag
    /// once the counter has reached the target.
    pub fn update_clock(&mut self)
        ensures
            *final(self) == clock_ticked(*old(self)),
    {
        if self.cur >= self.dur {
            self.ended = true;
            return;
        }
        self.cur = self.cur + 1;
    }

    /// The number of frames ticked so far (the voice-local time).
    pub fn get_clock(&self) -> (r: u64)
        ensures
            r == self.cur,
    {
        self.cur
    }

    /// Whether the countdown has run out.  Sticky: see `lemma_ended_is_sticky`.
    pub fn has_ended(&self) -> (r: bool)
        ensures
            r == self.ended,
    {
        self.ended
    }
}

/// Once a sample clock has ended, it stays ended under any number of
/// further ticks; and in any reachable ended state — the flag is only ever
/// set once the counter has reached its target — the counter stays put,
/// so it cannot wrap.
pub proof fn lemma_ended_is_sticky(c: SampleClock, n: nat)
    ensures
        c.ended ==> clock_ticked_n(c, n).ended,
        c.ended && c.cur >= c.dur ==> clock_ticked_n(c, n) == (SampleClock {
            dur: c.dur,
            cur: c.cur,
            ended: true,
        }),
    decreases n,
{
    if n > 0 {
        lemma_ended_is_sticky(c, (n - 1) as nat);
    }
}

} // verus!
