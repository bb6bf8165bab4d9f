//! A song: a starting tempo, its instruments, and the reserved list of
//! tempo-change points.
//!
//! The synthesis core plays a song at its starting tempo; the change list is
//! carried in the data model (and validated) but not yet applied during
//! playback.

use vstd::prelude::*;
use vstd::string::StringExecFns;

use crate::player::instrument::Synth;
use crate::player::tempo::{Tempo, TempoErr};

verus! {

/// A song: tempo bookkeeping plus the instruments that play it.
/// `tempo_cum` is the running sum of the starting tempo and all accepted
/// changes, used to reject a change that would drive the tempo to zero.
#[derive(Debug)]
pub struct Song {
    pub start_tempo: u32,
    pub tempo_changes: Vec<Tempo>,
    pub tempo_cum: u32,
    pub instruments: Vec<Synth>,
}

impl Song {
    /// An empty song at the given starting tempo.
    pub fn new(tempo: u32) -> (r: Self)
        ensures
            r.start_tempo == tempo,
            r.tempo_changes@ =~= Seq::<Tempo>::empty(),
            r.tempo_cum == 0,
            r.instruments@ =~= Seq::<Synth>::empty(),
    {
        Self { start_tempo: tempo, tempo_changes: Vec::new(), tempo_cum: 0,
            instruments: Vec::new() }
    }

    /// Add an instrument to the song.
    pub fn push_instrument(&mut self, i: Synth)
        ensures
            final(self).instruments@ == old(self).instruments@.push(i),
            final(self).start_tempo == old(self).start_tempo,
            final(self).tempo_changes == old(self).tempo_changes,
            final(self).tempo_cum == old(self).tempo_cum,
    {
        self.instruments.push(i)
    }

    /// Record a tempo change.  A change of value zero is rejected, as is one
    /// that would overflow the running tempo sum; the first accepted change
    /// of a song whose starting tempo is still zero becomes the starting
    /// tempo instead of a change point.
    pub fn push_tempo(&mut self, tempo: Tempo) -> (r: Result<(), TempoErr>)
        ensures
            tempo.value == 0 ==> r is Err && *final(self) == *old(self),
            tempo.value > 0 && old(self).start_tempo == 0 ==> r is Ok
                && final(self).start_tempo == tempo.value
                && final(self).tempo_cum == tempo.value
                && final(self).tempo_changes == old(self).tempo_changes
                && final(self).instruments == old(self).instruments,
            tempo.value > 0 && old(self).start_tempo != 0
                && old(self).tempo_cum + tempo.value <= u32::MAX ==> r is Ok
                && final(self).start_tempo == old(self).start_tempo
                && final(self).tempo_cum == old(self).tempo_cum + tempo.value
                && final(self).tempo_changes@ == old(self).tempo_changes@.push(tempo)
                && final(self).instruments == old(self).instruments,
            tempo.value > 0 && old(self).start_tempo != 0
                && old(self).tempo_cum + tempo.value > u32::MAX ==> r is Err
                && *final(self) == *old(self),
            r matches Err(TempoErr::InvalidOp { left, right, op, msg }) ==> left == old(
                self).tempo_cum && right == tempo.value && op@ == "+"@
                && msg@ == "allowed values for tempo are above 0."@,
    {
        if tempo.value == 0 {
            return Err(self.err_tempo(tempo.value));
        }
        if self.start_tempo == 0 {
            self.start_tempo = tempo.value;
            self.tempo_cum = tempo.value;
            return Ok(());
        }
        let room: u32 = u32::MAX - self.tempo_cum;
        if tempo.value > room {
            return Err(self.err_tempo(tempo.value));
        }
        self.tempo_cum = self.tempo_cum + tempo.value;
        self.tempo_changes.push(tempo);
        Ok(())
    }

    fn err_tempo(&self, tempo: u32) -> (r: TempoErr)
        ensures
            r matches TempoErr::InvalidOp { left, right, op, msg } && left == self.tempo_cum
                && right == tempo && op@ == "+"@
                && msg@ == "allowed values for tempo are above 0."@,
    {
        TempoErr::InvalidOp {
            left: self.tempo_cum,
            right: tempo,
            op: String::from_str("+"),
            msg: String::from_str("allowed values for tempo are above 0."),
        }
    }
}

} // verus!
