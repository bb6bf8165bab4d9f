//! The per-frame mixer.
//!
//! One `Mixer` owns a song's instruments for the duration of playback and is
//! driven once per output frame by the audio callback.  Per frame it walks
//! the instruments in order: an instrument seen to have finished since the
//! last frame is counted and skipped, every other one contributes the voice
//! descriptions of its next frame.  The renderer sums the voices' samples,
//! scales and clamps the sum, and writes it to every channel of the frame;
//! once `all_finished` reports true the song is over and every later frame
//! is silence.

use vstd::prelude::*;

use crate::player::instrument::{
    spec_synth_inv, spec_synth_next, FrameModel, Synth, SynthModel, VoiceFrame,
};
use crate::player::song::Song;

verus! {

/// The mathematical shape of a `Mixer`.
pub struct MixerModel {
    pub instruments: Seq<SynthModel>,
    pub finished_seen: Seq<bool>,
    pub finished_count: int,
    pub tempo: u32,
}

/// The mixing state: the instruments, which of them have been seen to
/// finish, how many have, and the song's tempo.
#[derive(Debug)]
pub struct Mixer {
    pub instruments: Vec<Synth>,
    pub finished_seen: Vec<bool>,
    pub finished_count: usize,
    pub tempo: u32,
}

impl View for Mixer {
    type V = MixerModel;

    open spec fn view(&self) -> MixerModel {
        MixerModel {
            instruments: self.instruments.deep_view(),
            finished_seen: self.finished_seen@,
            finished_count: self.finished_count as int,
            tempo: self.tempo,
        }
    }
}

/// How many of the first `k` flags are set.
pub open spec fn spec_count_trues(s: Seq<bool>, k: int) -> int
    decreases k,
{
    if k <= 0 {
        0
    } else {
        spec_count_trues(s, k - 1) + if s[k - 1] { 1int } else { 0int }
    }
}

/// The count of set flags among `k` is at most `k`.
pub proof fn lemma_count_trues_bound(s: Seq<bool>, k: int)
    ensures
        spec_count_trues(s, k) <= if k <= 0 { 0int } else { k },
    decreases k,
{
    if k > 0 {
        lemma_count_trues_bound(s, k - 1);
    }
}

/// A full count means every flag is set.
pub proof fn lemma_count_trues_full(s: Seq<bool>, k: int)
    requires
        spec_count_trues(s, k) == k,
        k >= 0,
    ensures
        forall|i: int| 0 <= i < k ==> s[i],
    decreases k,
{
    if k > 0 {
        lemma_count_trues_bound(s, k - 1);
        lemma_count_trues_full(s, k - 1);
    }
}

/// The internal consistency of a mixer: one seen-flag per instrument, the
/// count matching the flags, every instrument internally consistent, and a
/// set flag only on an instrument that has indeed finished.
pub open spec fn spec_mixer_inv(m: MixerModel) -> bool {
    &&& m.finished_seen.len() == m.instruments.len()
    &&& m.finished_count == spec_count_trues(m.finished_seen, m.finished_seen.len() as int)
    &&& forall|i: int| 0 <= i < m.instruments.len() ==> spec_synth_inv(#[trigger] m.instruments[i])
    &&& forall|i: int| 0 <= i < m.instruments.len() && m.finished_seen[i]
        ==> #[trigger] m.instruments[i].finished
    &&& m.tempo > 0
}

/// Whether instrument `i` is skipped this frame: not yet seen to have
/// finished, but finished now.
pub open spec fn spec_skip(m: MixerModel, i: int) -> bool {
    !m.finished_seen[i] && m.instruments[i].finished
}

/// Instrument `i` after this frame: untouched where skipped, else stepped
/// by one frame.
pub open spec fn spec_inst_after(m: MixerModel, sample_rate: u32, i: int) -> SynthModel {
    if spec_skip(m, i) {
        m.instruments[i]
    } else {
        spec_synth_next(m.instruments[i], sample_rate, m.tempo).0
    }
}

/// The seen-flag of instrument `i` after this frame.
pub open spec fn spec_seen_after(m: MixerModel, i: int) -> bool {
    m.finished_seen[i] || m.instruments[i].finished
}

/// How many of the first `k` instruments are skipped (newly counted as
/// finished) this frame.
pub open spec fn spec_skips_upto(m: MixerModel, k: int) -> int
    decreases k,
{
    if k <= 0 {
        0
    } else {
        spec_skips_upto(m, k - 1) + if spec_skip(m, k - 1) { 1int } else { 0int }
    }
}

/// The voice descriptions the first `k` instruments contribute this frame,
/// in instrument order.
pub open spec fn spec_mix_frames_upto(m: MixerModel, sample_rate: u32, k: int) -> Seq<FrameModel>
    decreases k,
{
    if k <= 0 {
        Seq::empty()
    } else {
        spec_mix_frames_upto(m, sample_rate, k - 1) + if spec_skip(m, k - 1) {
            Seq::empty()
        } else {
            spec_synth_next(m.instruments[k - 1], sample_rate, m.tempo).1
        }
    }
}

impl Mixer {
    /// A mixer holding a song's instruments, none yet seen to have finished.
    pub fn new(song: Song) -> (r: Self)
        requires
            song.start_tempo > 0,
            forall|i: int| 0 <= i < song.instruments.deep_view().len()
                ==> spec_synth_inv(#[trigger] song.instruments.deep_view()[i]),
        ensures
            r@.instruments == song.instruments.deep_view(),
            r@.finished_seen == Seq::new(song.instruments.deep_view().len(), |i: int| false),
            r@.finished_count == 0,
            r@.tempo == song.start_tempo,
            spec_mixer_inv(r@),
    {
        let n = song.instruments.len();
        let mut seen: Vec<bool> = Vec::new();
        let mut i: usize = 0;
        while i < n
            invariant
                i <= n,
                seen@.len() == i,
                forall|j: int| 0 <= j < i ==> !seen@[j],
            decreases n - i,
        {
            seen.push(false);
            i = i + 1;
        }
        let r = Self {
            instruments: song.instruments,
            finished_seen: seen,
            finished_count: 0,
            tempo: song.start_tempo,
        };
        proof {
            assert(r.finished_seen@ =~= Seq::new(r.instruments.deep_view().len(), |i: int| false));
            lemma_count_zero_of_all_false(r.finished_seen@, r.finished_seen@.len() as int);
        }
        r
    }

    /// Whether every instrument has been seen to finish: the song is over.
    pub fn all_finished(&self) -> (r: bool)
        ensures
            r == (self@.finished_count == self@.instruments.len()),
    {
        self.finished_count == self.instruments.len()
    }

    /// Mix one frame: count and skip each newly-finished
    /// instrument, and collect the voice descriptions of every other one,
    /// in instrument order.
    pub fn mix_frame(&mut self, sample_rate: u32) -> (frames: Vec<VoiceFrame>)
        requires
            spec_mixer_inv(old(self)@),
        ensures
            spec_mixer_inv(final(self)@),
            final(self)@.instruments.len() == old(self)@.instruments.len(),
            forall|i: int| 0 <= i < old(self)@.instruments.len() ==> final(self)@.instruments[i]
                == spec_inst_after(old(self)@, sample_rate, i),
            forall|i: int| 0 <= i < old(self)@.instruments.len() ==> final(self)@.finished_seen[i]
                == spec_seen_after(old(self)@, i),
            final(self)@.finished_count == old(self)@.finished_count + spec_skips_upto(old(self)@,
                old(self)@.instruments.len() as int),
            final(self)@.tempo == old(self)@.tempo,
            frames.deep_view() == spec_mix_frames_upto(old(self)@, sample_rate, old(
                self)@.instruments.len() as int),
    {
        let ghost m0 = self@;
        let mut old_insts: Vec<Synth> = Vec::new();
        core::mem::swap(&mut old_insts, &mut self.instruments);
        let ghost all = old_insts.deep_view();
        let n = old_insts.len();
        let mut new_insts: Vec<Synth> = Vec::new();
        let mut new_seen: Vec<bool> = Vec::new();
        let mut frames: Vec<VoiceFrame> = Vec::new();
        let mut i: usize = 0;
        while i < n
            invariant
                i <= n,
                n == m0.instruments.len(),
                old_insts@.len() == n - i,
                old_insts.deep_view() =~= all.subrange(i as int, n as int),
                all == m0.instruments,
                self.finished_seen@ == m0.finished_seen,
                self.tempo == m0.tempo,
                spec_mixer_inv(m0),
                new_insts.deep_view().len() == i,
                forall|j: int| 0 <= j < i ==> new_insts.deep_view()[j] == spec_inst_after(m0,
                    sample_rate, j),
                new_seen@.len() == i,
                forall|j: int| 0 <= j < i ==> new_seen@[j] == spec_seen_after(m0, j),
                self.finished_count == m0.finished_count + spec_skips_upto(m0, i as int),
                frames.deep_view() == spec_mix_frames_upto(m0, sample_rate, i as int),
            decreases n - i,
        {
            let ghost pre_insts = old_insts;
            let mut s = old_insts.remove(0);
            proof {
                assert(s == pre_insts@[0]);
                assert(s.deep_view() == pre_insts.deep_view()[0]);
                assert(s.deep_view() == all[i as int]);
                assert forall|j: int| 0 <= j < n - i - 1 implies old_insts.deep_view()[j]
                    == all.subrange(i + 1, n as int)[j] by {
                    assert(old_insts@ == pre_insts@.remove(0));
                    assert(old_insts@[j] == pre_insts@[j + 1]);
                    assert(old_insts.deep_view()[j] == old_insts@[j].deep_view());
                    assert(pre_insts.deep_view()[j + 1] == pre_insts@[j + 1].deep_view());
                    assert(pre_insts.deep_view()[j + 1] == all.subrange(i as int, n as int)[j
                        + 1]);
                }
                assert(old_insts.deep_view() =~= all.subrange(i + 1, n as int));
                lemma_count_trues_bound(m0.finished_seen, m0.finished_seen.len() as int);
                lemma_skips_bound(m0, i as int);
            }
            let seen_i = self.finished_seen[i];
            if !seen_i && s.is_finished() {
                new_seen.push(true);
                proof {
                    assert(spec_skip(m0, i as int));
                    lemma_count_plus_skips_bound(m0, i + 1);
                    assert(spec_skips_upto(m0, i + 1) == spec_skips_upto(m0, i as int) + 1);
                }
                self.finished_count = self.finished_count + 1;
                let ghost pre = new_insts;
                let ghost sg = s;
                new_insts.push(s);
                proof {
                    crate::views::lemma_vec_deep_view_push(pre, new_insts, sg);
                    assert(frames.deep_view() =~= spec_mix_frames_upto(m0, sample_rate,
                        i + 1));
                }
            } else {
                let mut fr = s.next_freq(sample_rate, self.tempo);
                proof {
                    assert(s.deep_view() == spec_synth_next(all[i as int], sample_rate,
                        m0.tempo).0);
                }
                let ghost pre_frames = frames;
                let ghost frg = fr;
                frames.append(&mut fr);
                new_seen.push(seen_i);
                let ghost pre = new_insts;
                let ghost sg = s;
                new_insts.push(s);
                proof {
                    crate::views::lemma_vec_deep_view_push(pre, new_insts, sg);
                    crate::views::lemma_vec_deep_view_concat(pre_frames, frames, frg);
                    assert(frames.deep_view() =~= spec_mix_frames_upto(m0, sample_rate,
                        i + 1));
                }
            }
            i = i + 1;
        }
        self.instruments = new_insts;
        self.finished_seen = new_seen;
        proof {
            lemma_mixer_inv_after(m0, sample_rate, self@);
        }
        frames
    }
}

/// A sequence of unset flags counts zero.
proof fn lemma_count_zero_of_all_false(s: Seq<bool>, k: int)
    requires
        forall|j: int| 0 <= j < k ==> !s[j],
    ensures
        spec_count_trues(s, k) == 0,
    decreases k,
{
    if k > 0 {
        lemma_count_zero_of_all_false(s, k - 1);
    }
}

/// Skips only count instruments whose flag is unset, so skips and set flags
/// together stay within the prefix length.
proof fn lemma_skips_plus_trues(m: MixerModel, k: int)
    ensures
        spec_skips_upto(m, k) + spec_count_trues(m.finished_seen, k) <= if k <= 0 {
            0int
        } else {
            k
        },
        spec_skips_upto(m, k) >= 0,
        spec_count_trues(m.finished_seen, k) >= 0,
    decreases k,
{
    if k > 0 {
        lemma_skips_plus_trues(m, k - 1);
    }
}

/// Set flags beyond a prefix number at most the elements beyond it.
proof fn lemma_trues_split(s: Seq<bool>, k: int, n: int)
    requires
        0 <= k <= n,
    ensures
        spec_count_trues(s, n) <= spec_count_trues(s, k) + (n - k),
    decreases n - k,
{
    if n > k {
        lemma_trues_split(s, k, n - 1);
    }
}

/// Under the mixer invariant, the running finished-count plus the skips of
/// any prefix stays within the number of instruments.
proof fn lemma_count_plus_skips_bound(m: MixerModel, k: int)
    requires
        spec_mixer_inv(m),
        0 <= k <= m.instruments.len(),
    ensures
        m.finished_count + spec_skips_upto(m, k) <= m.instruments.len(),
{
    let n = m.instruments.len() as int;
    lemma_skips_plus_trues(m, k);
    lemma_trues_split(m.finished_seen, k, n);
}

/// At most `k` of the first `k` instruments are skipped.
proof fn lemma_skips_bound(m: MixerModel, k: int)
    ensures
        spec_skips_upto(m, k) <= if k <= 0 { 0int } else { k },
        spec_skips_upto(m, k) >= 0,
    decreases k,
{
    if k > 0 {
        lemma_skips_bound(m, k - 1);
    }
}

/// The per-frame update preserves the mixer's internal consistency.
proof fn lemma_mixer_inv_after(m0: MixerModel, sample_rate: u32, m1: MixerModel)
    requires
        spec_mixer_inv(m0),
        m1.instruments.len() == m0.instruments.len(),
        m1.finished_seen.len() == m0.instruments.len(),
        forall|i: int| 0 <= i < m0.instruments.len() ==> m1.instruments[i] == spec_inst_after(m0,
            sample_rate, i),
        forall|i: int| 0 <= i < m0.instruments.len() ==> m1.finished_seen[i] == spec_seen_after(
            m0, i),
        m1.finished_count == m0.finished_count + spec_skips_upto(m0,
            m0.instruments.len() as int),
        m1.tempo == m0.tempo,
    ensures
        spec_mixer_inv(m1),
{
    let n = m0.instruments.len() as int;
    assert forall|i: int| 0 <= i < n implies spec_synth_inv(#[trigger] m1.instruments[i]) by {
        crate::player::instrument::lemma_step_preserves_inv(m0.instruments[i], sample_rate,
            m0.tempo);
    }
    assert forall|i: int| 0 <= i < n && m1.finished_seen[i] implies #[trigger] m1.instruments[
        i].finished by {
        assert(m1.finished_seen[i] == spec_seen_after(m0, i));
        if spec_skip(m0, i) {
            assert(m1.instruments[i] == m0.instruments[i]);
        } else {
            assert(m0.instruments[i].finished);
            assert(spec_synth_inv(m0.instruments[i]));
            assert(spec_synth_next(m0.instruments[i], sample_rate, m0.tempo).0.finished);
        }
    }
    lemma_count_after(m0, sample_rate, m1, n);
}

/// The new finished-count equals the count of set flags after the frame.
proof fn lemma_count_after(m0: MixerModel, sample_rate: u32, m1: MixerModel, k: int)
    requires
        spec_mixer_inv(m0),
        k <= m0.instruments.len(),
        m1.finished_seen.len() == m0.instruments.len(),
        forall|i: int| 0 <= i < m0.instruments.len() ==> m1.finished_seen[i] == spec_seen_after(
            m0, i),
    ensures
        spec_count_trues(m1.finished_seen, k) == spec_count_trues(m0.finished_seen, k)
            + spec_skips_upto(m0, k),
    decreases k,
{
    if k > 0 {
        lemma_count_after(m0, sample_rate, m1, k - 1);
        assert(m1.finished_seen[k - 1] == spec_seen_after(m0, k - 1));
        assert(spec_count_trues(m1.finished_seen, k) == spec_count_trues(m1.finished_seen,
            k - 1) + if m1.finished_seen[k - 1] { 1int } else { 0int });
        assert(spec_count_trues(m0.finished_seen, k) == spec_count_trues(m0.finished_seen,
            k - 1) + if m0.finished_seen[k - 1] { 1int } else { 0int });
        assert(spec_skips_upto(m0, k) == spec_skips_upto(m0, k - 1) + if spec_skip(m0, k - 1) {
            1int
        } else {
            0int
        });
    }
}

/// Once every instrument has been counted as finished, the song stays over
/// and every later frame is empty: no instrument contributes any voice.
pub proof fn lemma_all_finished_is_silence(m: MixerModel, sample_rate: u32)
    requires
        spec_mixer_inv(m),
        m.finished_count == m.instruments.len(),
    ensures
        forall|i: int| 0 <= i < m.instruments.len() ==> #[trigger] m.instruments[i].finished,
        spec_mix_frames_upto(m, sample_rate, m.instruments.len() as int) == Seq::<
            FrameModel,
        >::empty(),
        spec_skips_upto(m, m.instruments.len() as int) == 0,
{
    let n = m.instruments.len() as int;
    lemma_count_trues_full(m.finished_seen, n);
    lemma_silence_upto(m, sample_rate, n);
}

/// Helper induction for `lemma_all_finished_is_silence`.
proof fn lemma_silence_upto(m: MixerModel, sample_rate: u32, k: int)
    requires
        spec_mixer_inv(m),
        k <= m.instruments.len(),
        forall|i: int| 0 <= i < m.instruments.len() ==> m.finished_seen[i],
    ensures
        spec_mix_frames_upto(m, sample_rate, k) == Seq::<FrameModel>::empty(),
        spec_skips_upto(m, k) == 0,
    decreases k,
{
    if k > 0 {
        lemma_silence_upto(m, sample_rate, k - 1);
        assert(!spec_skip(m, k - 1));
        crate::player::instrument::lemma_finished_is_forever(m.instruments[k - 1], sample_rate,
            m.tempo, 0);
        assert(spec_mix_frames_upto(m, sample_rate, k) =~= Seq::<FrameModel>::empty());
    }
}

} // verus!
