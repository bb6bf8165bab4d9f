//! The polyphonic instrument.
//!
//! A `Synth` consumes a score — a queue of chords, each an ordered list of
//! sounds — and keeps a list of live voices.  Each call of `next_freq`
//! produces the description of one output frame: which voices sound, with
//! which pitch, effects and voice-local clock.  The renderer turns each
//! voice description into a waveform sample and sums them; everything that
//! decides *which* voices sound *when* is specified and verified here, as
//! the step function `spec_synth_next`.
//!
//! Per frame the instrument: pops the next chord once the first voice of the
//! newest chord has ended (finishing for good when the score runs out),
//! re-reads that first voice's ended flag, drops ended voices, and ticks the
//! clock of every remaining voice.  A chord's *first* voice drives
//! advancement: a chord of unequal durations leaves its longer voices
//! ringing into the next chord.

use vstd::prelude::*;

use std::collections::VecDeque;

use crate::player::oscillator::Oscillator;
use crate::player::sound::{dup_effects, Effect, Note, Octave, Sound, SoundModel};
use crate::player::tempo::{clock_ticked, spec_duration_frames, calc_duration, SampleClock};

verus! {

/// A live, currently-sounding instance of a sound: its pitch, effects, and
/// its own countdown clock.
#[derive(Debug)]
pub struct Voice {
    pub sample_clock: SampleClock,
    pub note: Note,
    pub octave: Octave,
    pub effects: Option<Vec<Effect>>,
}

/// The mathematical shape of a `Voice`.
pub struct VoiceModel {
    pub sample_clock: SampleClock,
    pub note: Note,
    pub octave: Octave,
    pub effects: Option<Seq<Effect>>,
}

impl View for Voice {
    type V = VoiceModel;

    open spec fn view(&self) -> VoiceModel {
        VoiceModel {
            sample_clock: self.sample_clock,
            note: self.note,
            octave: self.octave,
            effects: match self.effects {
                Some(v) => Some(v@),
                None => None,
            },
        }
    }
}

impl DeepView for Voice {
    type V = VoiceModel;

    open spec fn deep_view(&self) -> VoiceModel {
        self.view()
    }
}

/// The voice a sound spawns at the given sample rate and tempo: its clock
/// runs for the sound's duration converted to whole frames.
pub open spec fn spec_voice_of_sound(s: SoundModel, sample_rate: u32, beat_per_min: u32)
    -> VoiceModel {
    VoiceModel {
        sample_clock: SampleClock {
            dur: spec_duration_frames(sample_rate as int, beat_per_min as int, s.duration) as u64,
            cur: 0,
            ended: false,
        },
        note: s.note,
        octave: s.octave,
        effects: s.effects,
    }
}

impl Voice {
    /// The voice spawned for `sound` at the given sample rate and tempo.
    pub fn new(sound: &Sound, sample_rate: u32, beat_per_min: u32) -> (r: Self)
        requires
            beat_per_min > 0,
        ensures
            r@ == spec_voice_of_sound(sound@, sample_rate, beat_per_min),
    {
        let frames = calc_duration(sample_rate, beat_per_min, &sound.duration);
        let effects: Option<Vec<Effect>> = match &sound.effects {
            Some(e) => Some(dup_effects(e)),
            None => None,
        };
        Voice {
            sample_clock: SampleClock::new(frames),
            note: sound.note,
            octave: sound.octave,
            effects,
        }
    }

    /// An equal copy of this voice.
    pub fn dup(&self) -> (r: Self)
        ensures
            r@ == self@,
    {
        let effects: Option<Vec<Effect>> = match &self.effects {
            Some(e) => Some(dup_effects(e)),
            None => None,
        };
        Voice {
            sample_clock: self.sample_clock,
            note: self.note,
            octave: self.octave,
            effects,
        }
    }

    /// Whether this voice's countdown has run out.
    pub fn has_ended(&self) -> (r: bool)
        ensures
            r == self@.sample_clock.ended,
    {
        self.sample_clock.has_ended()
    }
}

/// One voice's contribution to one output frame: what the renderer needs to
/// compute `oscillate(hz + modulation, sample_rate, clock) * amplitude(clock)`.
/// `fx_clock` is the voice clock at which the effects are evaluated (before
/// this frame's tick); `clock` is the clock after the tick, at which the
/// oscillator and envelope are evaluated.
#[derive(Debug)]
pub struct VoiceFrame {
    pub note: Note,
    pub octave: Octave,
    pub effects: Option<Vec<Effect>>,
    pub osc: Oscillator,
    pub fx_clock: u64,
    pub clock: u64,
}

/// The mathematical shape of a `VoiceFrame`.
pub struct FrameModel {
    pub note: Note,
    pub octave: Octave,
    pub effects: Option<Seq<Effect>>,
    pub osc: Oscillator,
    pub fx_clock: u64,
    pub clock: u64,
}

impl View for VoiceFrame {
    type V = FrameModel;

    open spec fn view(&self) -> FrameModel {
        FrameModel {
            note: self.note,
            octave: self.octave,
            effects: match self.effects {
                Some(v) => Some(v@),
                None => None,
            },
            osc: self.osc,
            fx_clock: self.fx_clock,
            clock: self.clock,
        }
    }
}

impl DeepView for VoiceFrame {
    type V = FrameModel;

    open spec fn deep_view(&self) -> FrameModel {
        self.view()
    }
}

/// A voice after one clock tick.
pub open spec fn spec_tick_voice(v: VoiceModel) -> VoiceModel {
    VoiceModel {
        sample_clock: clock_ticked(v.sample_clock),
        note: v.note,
        octave: v.octave,
        effects: v.effects,
    }
}

/// The frame a live voice contributes: effects at the pre-tick clock, the
/// instrument's waveform, and the oscillator and envelope at the post-tick
/// clock.
pub open spec fn spec_frame_of(v: VoiceModel, osc: Oscillator) -> FrameModel {
    FrameModel {
        note: v.note,
        octave: v.octave,
        effects: v.effects,
        osc,
        fx_clock: v.sample_clock.cur,
        clock: clock_ticked(v.sample_clock).cur,
    }
}

/// Dropping ended voices, then ticking and sounding the rest, in order:
/// the per-frame treatment of the live-voice list (steps 4 and 5 of the
/// per-frame algorithm).
pub open spec fn spec_live_step(s: Seq<VoiceModel>, osc: Oscillator) -> (Seq<VoiceModel>,
    Seq<FrameModel>)
    decreases s.len(),
{
    if s.len() == 0 {
        (Seq::empty(), Seq::empty())
    } else {
        let (cs, fs) = spec_live_step(s.drop_last(), osc);
        let v = s.last();
        if v.sample_clock.ended {
            (cs, fs)
        } else {
            (cs.push(spec_tick_voice(v)), fs.push(spec_frame_of(v, osc)))
        }
    }
}

/// The voices spawned by a chord, in the chord's order.
pub open spec fn spec_spawn_voices(chord: Seq<SoundModel>, sample_rate: u32, beat_per_min: u32)
    -> Seq<VoiceModel> {
    chord.map_values(|s: SoundModel| spec_voice_of_sound(s, sample_rate, beat_per_min))
}

/// An instrument's options: the waveform it plays with.  (The amplitude
/// envelope has no knobs; the renderer applies the fixed default envelope.)
#[derive(Debug, Clone, Copy, PartialEq, Eq, Structural)]
pub struct Options {
    pub osc: Oscillator,
}

/// The score-reading instrument: the remaining score, the live voices, the
/// advancement flags and the rendering options.
#[derive(Debug)]
pub struct Synth {
    pub score: VecDeque<Vec<Sound>>,
    pub cur: Vec<Voice>,
    pub first_finished: bool,
    pub finished: bool,
    pub opts: Options,
}

/// The mathematical shape of a `Synth`.
pub struct SynthModel {
    pub score: Seq<Seq<SoundModel>>,
    pub cur: Seq<VoiceModel>,
    pub first_finished: bool,
    pub finished: bool,
    pub opts: Options,
}

impl View for Synth {
    type V = SynthModel;

    open spec fn view(&self) -> SynthModel {
        SynthModel {
            score: self.score.deep_view(),
            cur: self.cur.deep_view(),
            first_finished: self.first_finished,
            finished: self.finished,
            opts: self.opts,
        }
    }
}

impl DeepView for Synth {
    type V = SynthModel;

    open spec fn deep_view(&self) -> SynthModel {
        self.view()
    }
}

/// One frame of an instrument, as a function from the old state to
/// the new state and the frame's voice list:
///
/// 1. once the first voice of the newest chord has ended, pop the next chord
///    and spawn its voices — or finish for good if the score is out; a
///    popped empty chord leaves nothing to wait for, so the next frame pops
///    again;
/// 2. a finished instrument contributes nothing, forever;
/// 3. re-read the ended flag of the newest chord's first voice;
/// 4. drop ended voices;
/// 5. tick every remaining voice and emit its frame description.
pub open spec fn spec_synth_next(m: SynthModel, sample_rate: u32, beat_per_min: u32)
    -> (SynthModel, Seq<FrameModel>) {
    if m.first_finished && m.score.len() == 0 {
        (SynthModel {
            score: m.score,
            cur: m.cur,
            first_finished: m.first_finished,
            finished: true,
            opts: m.opts,
        }, Seq::empty())
    } else {
        let m1 = if m.first_finished {
            SynthModel {
                score: m.score.drop_first(),
                cur: m.cur + spec_spawn_voices(m.score[0], sample_rate, beat_per_min),
                first_finished: m.score[0].len() == 0,
                finished: m.finished,
                opts: m.opts,
            }
        } else {
            m
        };
        let first_index = if m.first_finished { m.cur.len() as int } else { 0int };
        if m1.finished {
            (m1, Seq::empty())
        } else {
            let ff = if first_index < m1.cur.len() {
                m1.cur[first_index].sample_clock.ended
            } else {
                m1.first_finished
            };
            let (ticked, frames) = spec_live_step(m1.cur, m1.opts.osc);
            (SynthModel {
                score: m1.score,
                cur: ticked,
                first_finished: ff,
                finished: m1.finished,
                opts: m1.opts,
            }, frames)
        }
    }
}

/// A synth `n` frames later (ignoring the frames it emitted on the way).
pub open spec fn spec_synth_run(m: SynthModel, sample_rate: u32, beat_per_min: u32, n: nat)
    -> SynthModel
    decreases n,
{
    if n == 0 {
        m
    } else {
        spec_synth_next(spec_synth_run(m, sample_rate, beat_per_min, (n - 1) as nat),
            sample_rate, beat_per_min).0
    }
}

/// The internal consistency of a synth state: it can only be finished with
/// an exhausted score, still awaiting a chord.  `Synth::new` establishes it
/// and every frame preserves it.
pub open spec fn spec_synth_inv(m: SynthModel) -> bool {
    m.finished ==> (m.first_finished && m.score.len() == 0)
}

impl Synth {
    /// A fresh instrument for a score: no live voices, ready to pop the
    /// first chord.
    pub fn new(opts: Options, score: VecDeque<Vec<Sound>>) -> (r: Self)
        ensures
            r@ == (SynthModel {
                score: score.deep_view(),
                cur: Seq::<VoiceModel>::empty(),
                first_finished: true,
                finished: false,
                opts,
            }),
            spec_synth_inv(r@),
    {
        let r = Self { score, cur: Vec::new(), first_finished: true, finished: false, opts };
        proof {
            assert(r.cur.deep_view() =~= Seq::<VoiceModel>::empty());
        }
        r
    }

    /// Whether the score is exhausted for good.
    pub fn is_finished(&self) -> (r: bool)
        ensures
            r == self@.finished,
    {
        self.finished
    }

    /// Produce one frame: advance the score if due, drop ended voices, tick
    /// the rest and describe what they sound.  Exactly `spec_synth_next`.
    pub fn next_freq(&mut self, sample_rate: u32, beat_per_min: u32) -> (frames: Vec<VoiceFrame>)
        requires
            beat_per_min > 0,
        ensures
            final(self)@ == spec_synth_next(old(self)@, sample_rate, beat_per_min).0,
            frames.deep_view() == spec_synth_next(old(self)@, sample_rate, beat_per_min).1,
            spec_synth_inv(old(self)@) ==> spec_synth_inv(final(self)@),
    {
        let ghost m0 = self@;
        let mut first_index: usize = 0;
        if self.first_finished {
            let popped = self.score.pop_front();
            match popped {
                Some(sounds) => {
                    first_index = self.cur.len();
                    let ghost cur1 = self@.cur;
                    let mut k: usize = 0;
                    while k < sounds.len()
                        invariant
                            k <= sounds@.len(),
                            beat_per_min > 0,
                            self@.cur =~= cur1 + spec_spawn_voices(
                                sounds.deep_view().subrange(0, k as int), sample_rate,
                                beat_per_min),
                            self@.score == m0.score.drop_first(),
                            self@.first_finished == m0.first_finished,
                            self@.finished == m0.finished,
                            self@.opts == m0.opts,
                        decreases sounds@.len() - k,
                    {
                        let v = Voice::new(&sounds[k], sample_rate, beat_per_min);
                        let ghost pre_cur = self.cur;
                        let ghost vg = v;
                        self.cur.push(v);
                        proof {
                            crate::views::lemma_vec_deep_view_push(pre_cur, self.cur, vg);
                            assert(sounds.deep_view().subrange(0, k + 1) =~= sounds
                                .deep_view().subrange(0, k as int).push(sounds.deep_view()[
                                k as int]));
                            assert(spec_spawn_voices(sounds.deep_view().subrange(0, k + 1),
                                sample_rate, beat_per_min) =~= spec_spawn_voices(
                                sounds.deep_view().subrange(0, k as int), sample_rate,
                                beat_per_min).push(spec_voice_of_sound(sounds.deep_view()[
                                k as int], sample_rate, beat_per_min)));
                            assert(self.cur.deep_view() =~= cur1 + spec_spawn_voices(
                                sounds.deep_view().subrange(0, k + 1), sample_rate,
                                beat_per_min));
                        }
                        k = k + 1;
                    }
                    proof {
                        assert(sounds.deep_view().subrange(0, sounds.deep_view().len() as int)
                            =~= sounds.deep_view());
                        assert(sounds.deep_view() == m0.score[0]);
                    }
                    if sounds.len() > 0 {
                        self.first_finished = false;
                    }
                }
                None => {
                    self.finished = true;
                    let frames: Vec<VoiceFrame> = Vec::new();
                    proof {
                        assert(frames.deep_view() =~= Seq::<FrameModel>::empty());
                        assert(self@ =~~= spec_synth_next(m0, sample_rate, beat_per_min).0);
                    }
                    return frames;
                }
            }
        }
        if self.finished {
            let frames: Vec<VoiceFrame> = Vec::new();
            proof {
                assert(frames.deep_view() =~= Seq::<FrameModel>::empty());
                assert(self@ =~~= spec_synth_next(m0, sample_rate, beat_per_min).0);
            }
            return frames;
        }
        if first_index < self.cur.len() {
            let ended = (&self.cur[first_index]).has_ended();
            self.first_finished = ended;
        }
        let ghost m1cur = self@.cur;
        let ghost mid = self@;
        let mut new_cur: Vec<Voice> = Vec::new();
        let mut frames: Vec<VoiceFrame> = Vec::new();
        let mut k: usize = 0;
        while k < self.cur.len()
            invariant
                k <= self.cur@.len(),
                self@ == mid,
                self@.cur == m1cur,
                (new_cur.deep_view(), frames.deep_view()) == spec_live_step(
                    m1cur.subrange(0, k as int), mid.opts.osc),
            decreases self.cur@.len() - k,
        {
            let alive = !(&self.cur[k]).has_ended();
            if alive {
                let mut v = (&self.cur[k]).dup();
                let fx_clock = v.sample_clock.get_clock();
                v.sample_clock.update_clock();
                let clock = v.sample_clock.get_clock();
                let effects: Option<Vec<Effect>> = match &v.effects {
                    Some(e) => Some(dup_effects(e)),
                    None => None,
                };
                let frame = VoiceFrame { note: v.note, octave: v.octave, effects,
                    osc: self.opts.osc, fx_clock, clock };
                proof {
                    assert(frame@ == spec_frame_of(m1cur[k as int], mid.opts.osc));
                    assert(v@ == spec_tick_voice(m1cur[k as int]));
                }
                let ghost pre_cur = new_cur;
                let ghost pre_frames = frames;
                let ghost vg = v;
                let ghost fg = frame;
                new_cur.push(v);
                frames.push(frame);
                proof {
                    crate::views::lemma_vec_deep_view_push(pre_cur, new_cur, vg);
                    crate::views::lemma_vec_deep_view_push(pre_frames, frames, fg);
                }
            }
            proof {
                assert(m1cur.subrange(0, k + 1) =~= m1cur.subrange(0, k as int).push(
                    m1cur[k as int]));
                assert(m1cur.subrange(0, k + 1).drop_last() =~= m1cur.subrange(0, k as int));
                assert(new_cur.deep_view() =~= spec_live_step(m1cur.subrange(0, k + 1),
                    mid.opts.osc).0);
                assert(frames.deep_view() =~= spec_live_step(m1cur.subrange(0, k + 1),
                    mid.opts.osc).1);
            }
            k = k + 1;
        }
        proof {
            assert(m1cur.subrange(0, m1cur.len() as int) =~= m1cur);
        }
        self.cur = new_cur;
        proof {
            assert(self@ =~~= spec_synth_next(m0, sample_rate, beat_per_min).0);
            assert(frames.deep_view() =~= spec_synth_next(m0, sample_rate, beat_per_min).1);
        }
        frames
    }
}

/// Once an instrument is finished it is finished for good, and every later
/// frame is empty: for any consistent finished state, `n` frames later the
/// instrument is still finished and the next frame still carries no voices.
pub proof fn lemma_finished_is_forever(m: SynthModel, sample_rate: u32, beat_per_min: u32, n: nat)
    requires
        spec_synth_inv(m),
        m.finished,
    ensures
        spec_synth_run(m, sample_rate, beat_per_min, n).finished,
        spec_synth_inv(spec_synth_run(m, sample_rate, beat_per_min, n)),
        spec_synth_next(spec_synth_run(m, sample_rate, beat_per_min, n), sample_rate,
            beat_per_min).1 == Seq::<FrameModel>::empty(),
    decreases n,
{
    if n > 0 {
        lemma_finished_is_forever(m, sample_rate, beat_per_min, (n - 1) as nat);
    }
}

/// Every frame preserves the synth's internal consistency.
pub proof fn lemma_step_preserves_inv(m: SynthModel, sample_rate: u32, beat_per_min: u32)
    requires
        spec_synth_inv(m),
    ensures
        spec_synth_inv(spec_synth_next(m, sample_rate, beat_per_min).0),
{
}

/// On a list of voices none of which has ended, a frame drops nobody: every
/// voice is ticked and every voice sounds.
proof fn lemma_live_step_all_alive(s: Seq<VoiceModel>, osc: Oscillator)
    requires
        forall|i: int| 0 <= i < s.len() ==> !(#[trigger] s[i]).sample_clock.ended,
    ensures
        spec_live_step(s, osc).0 == s.map_values(|v: VoiceModel| spec_tick_voice(v)),
        spec_live_step(s, osc).1 == s.map_values(|v: VoiceModel| spec_frame_of(v, osc)),
    decreases s.len(),
{
    if s.len() > 0 {
        lemma_live_step_all_alive(s.drop_last(), osc);
        assert(s.map_values(|v: VoiceModel| spec_tick_voice(v)) =~= s.drop_last().map_values(
            |v: VoiceModel| spec_tick_voice(v)).push(spec_tick_voice(s.last())));
        assert(s.map_values(|v: VoiceModel| spec_frame_of(v, osc)) =~= s.drop_last()
            .map_values(|v: VoiceModel| spec_frame_of(v, osc)).push(spec_frame_of(s.last(),
            osc)));
    }
}

/// On a list of voices all of which have ended, a frame drops everybody and
/// nothing sounds.
proof fn lemma_live_step_all_ended(s: Seq<VoiceModel>, osc: Oscillator)
    requires
        forall|i: int| 0 <= i < s.len() ==> (#[trigger] s[i]).sample_clock.ended,
    ensures
        spec_live_step(s, osc).0 == Seq::<VoiceModel>::empty(),
        spec_live_step(s, osc).1 == Seq::<FrameModel>::empty(),
    decreases s.len(),
{
    if s.len() > 0 {
        lemma_live_step_all_ended(s.drop_last(), osc);
    }
}

/// A chord all of whose sounds have the same duration.
pub open spec fn spec_uniform_chord(chord: Seq<SoundModel>) -> bool {
    chord.len() > 0 && forall|i: int| 0 <= i < chord.len() ==> (#[trigger] chord[i]).duration
        == chord[0].duration
}

/// A fresh synth about to play `chord` and then the rest of its score.
pub open spec fn spec_synth_at_chord(chord: Seq<SoundModel>, rest: Seq<Seq<SoundModel>>,
    opts: Options) -> SynthModel {
    SynthModel {
        score: seq![chord] + rest,
        cur: Seq::empty(),
        first_finished: true,
        finished: false,
        opts,
    }
}

/// The clock of a uniform chord's voice after `n` of the chord's frames:
/// it counts up to the target `d` and is found ended on frame `d + 1`.
pub open spec fn spec_playing_clock(d: u64, n: nat) -> SampleClock {
    SampleClock {
        dur: d,
        cur: if n <= d { n as u64 } else { d },
        ended: n == d + 1,
    }
}

/// The synth state while a uniform chord plays: frame `n` of the chord,
/// for `1 <= n <= d + 1`.
pub open spec fn spec_playing_state(chord: Seq<SoundModel>, rest: Seq<Seq<SoundModel>>,
    opts: Options, d: u64, n: nat) -> SynthModel {
    SynthModel {
        score: rest,
        cur: Seq::new(chord.len(), |i: int| VoiceModel {
            sample_clock: spec_playing_clock(d, n),
            note: chord[i].note,
            octave: chord[i].octave,
            effects: chord[i].effects,
        }),
        first_finished: false,
        finished: false,
        opts,
    }
}

/// The frame every voice of a playing uniform chord contributes on the
/// chord's frame `n`: its own pitch and effects, and the one clock the
/// whole chord shares.
pub open spec fn spec_chord_frame(chord: Seq<SoundModel>, opts: Options, d: u64, n: nat)
    -> Seq<FrameModel> {
    Seq::new(chord.len(), |i: int| FrameModel {
        note: chord[i].note,
        octave: chord[i].octave,
        effects: chord[i].effects,
        osc: opts.osc,
        fx_clock: spec_playing_clock(d, (n - 1) as nat).cur,
        clock: spec_playing_clock(d, n).cur,
    })
}

/// While a uniform chord of target length `d` frames plays, frames `1`
/// through `d + 1` all sound every voice of the chord — each voice with its
/// own pitch and effects at one shared clock — and the score beyond the
/// chord is untouched.
pub proof fn lemma_chord_playing(chord: Seq<SoundModel>, rest: Seq<Seq<SoundModel>>,
    opts: Options, sample_rate: u32, beat_per_min: u32, n: nat)
    requires
        beat_per_min > 0,
        spec_uniform_chord(chord),
        1 <= n <= spec_voice_of_sound(chord[0], sample_rate, beat_per_min).sample_clock.dur + 1,
    ensures
        ({
            let m0 = spec_synth_at_chord(chord, rest, opts);
            let d = spec_voice_of_sound(chord[0], sample_rate, beat_per_min).sample_clock.dur;
            &&& spec_synth_run(m0, sample_rate, beat_per_min, n) == spec_playing_state(chord,
                rest, opts, d, n)
            &&& spec_synth_next(spec_synth_run(m0, sample_rate, beat_per_min, (n - 1) as nat),
                sample_rate, beat_per_min).1 == spec_chord_frame(chord, opts, d, n)
        }),
    decreases n,
{
    let m0 = spec_synth_at_chord(chord, rest, opts);
    let d = spec_voice_of_sound(chord[0], sample_rate, beat_per_min).sample_clock.dur;
    let tick_fn = |v: VoiceModel| spec_tick_voice(v);
    let frame_fn = |v: VoiceModel| spec_frame_of(v, opts.osc);
    if n == 1 {
        assert(spec_synth_run(m0, sample_rate, beat_per_min, 0) == m0);
        let sc = seq![chord] + rest;
        assert(sc.len() > 0);
        assert(sc[0] == chord);
        assert(sc.drop_first() =~= rest);
        let spawned = spec_spawn_voices(chord, sample_rate, beat_per_min);
        assert(Seq::<VoiceModel>::empty() + spawned =~= spawned);
        assert(forall|i: int| 0 <= i < spawned.len() ==> !(#[trigger] spawned[i])
            .sample_clock.ended);
        lemma_live_step_all_alive(spawned, opts.osc);
        assert forall|i: int| 0 <= i < chord.len() implies spawned.map_values(tick_fn)[i]
            == spec_playing_state(chord, rest, opts, d, 1).cur[i] by {
            assert(chord[i].duration == chord[0].duration);
            assert(spawned[i] == spec_voice_of_sound(chord[i], sample_rate, beat_per_min));
            assert(spawned[i].sample_clock.dur == d);
        }
        assert(spawned.map_values(tick_fn) =~= spec_playing_state(chord, rest, opts, d,
            1).cur);
        assert(spec_synth_next(m0, sample_rate, beat_per_min).0 =~~= spec_playing_state(chord,
            rest, opts, d, 1));
        assert(spec_synth_next(m0, sample_rate, beat_per_min).1 == spawned.map_values(
            frame_fn));
        assert forall|i: int| 0 <= i < chord.len() implies spawned.map_values(frame_fn)[i]
            == spec_chord_frame(chord, opts, d, 1)[i] by {
            assert(chord[i].duration == chord[0].duration);
            assert(spawned[i] == spec_voice_of_sound(chord[i], sample_rate, beat_per_min));
            assert(spawned[i].sample_clock.dur == d);
        }
        assert(spawned.map_values(frame_fn) =~= spec_chord_frame(chord, opts, d, 1));
    } else {
        lemma_chord_playing(chord, rest, opts, sample_rate, beat_per_min, (n - 1) as nat);
        let prev = spec_playing_state(chord, rest, opts, d, (n - 1) as nat);
        assert(prev.cur.len() == chord.len());
        assert(!prev.cur[0].sample_clock.ended);
        assert(forall|i: int| 0 <= i < prev.cur.len() ==> !(#[trigger] prev.cur[i])
            .sample_clock.ended);
        lemma_live_step_all_alive(prev.cur, opts.osc);
        assert forall|i: int| 0 <= i < chord.len() implies prev.cur.map_values(tick_fn)[i]
            == spec_playing_state(chord, rest, opts, d, n).cur[i] by {
            assert(prev.cur[i].sample_clock == spec_playing_clock(d, (n - 1) as nat));
        }
        assert(prev.cur.map_values(tick_fn) =~= spec_playing_state(chord, rest, opts, d,
            n).cur);
        assert(spec_synth_next(prev, sample_rate, beat_per_min).0 =~~= spec_playing_state(
            chord, rest, opts, d, n));
        assert(spec_synth_next(prev, sample_rate, beat_per_min).1 == prev.cur.map_values(
            frame_fn));
        assert forall|i: int| 0 <= i < chord.len() implies prev.cur.map_values(frame_fn)[i]
            == spec_chord_frame(chord, opts, d, n)[i] by {
            assert(prev.cur[i].sample_clock == spec_playing_clock(d, (n - 1) as nat));
        }
        assert(prev.cur.map_values(frame_fn) =~= spec_chord_frame(chord, opts, d, n));
    }
}

/// A uniform chord of target length `d` frames occupies exactly `d + 2`
/// calls: frames `1` through `d + 1` sound all its voices in lockstep
/// (`spec_chord_frame`), frame `d + 2` retires
/// them and carries no voice, and the call after that — frame `d + 3` of the
/// chord — either spawns the next chord of the score or, with the score
/// exhausted, finishes the instrument for good.
pub proof fn lemma_chord_frame_count(chord: Seq<SoundModel>, rest: Seq<Seq<SoundModel>>,
    opts: Options, sample_rate: u32, beat_per_min: u32)
    requires
        beat_per_min > 0,
        spec_uniform_chord(chord),
    ensures
        ({
            let m0 = spec_synth_at_chord(chord, rest, opts);
            let d = spec_voice_of_sound(chord[0], sample_rate, beat_per_min).sample_clock.dur;
            let await_state = SynthModel {
                score: rest,
                cur: Seq::<VoiceModel>::empty(),
                first_finished: true,
                finished: false,
                opts,
            };
            &&& forall|n: nat| 1 <= n <= d + 1 ==> #[trigger] spec_synth_next(
                spec_synth_run(m0, sample_rate, beat_per_min, (n - 1) as nat), sample_rate,
                beat_per_min).1 == spec_chord_frame(chord, opts, d, n)
            &&& spec_synth_run(m0, sample_rate, beat_per_min, (d + 2) as nat) == await_state
            &&& spec_synth_next(spec_synth_run(m0, sample_rate, beat_per_min, (d + 1) as nat),
                sample_rate, beat_per_min).1 == Seq::<FrameModel>::empty()
            &&& (rest.len() == 0 ==> spec_synth_run(m0, sample_rate, beat_per_min,
                (d + 3) as nat).finished)
            &&& (rest.len() > 0 ==> spec_synth_run(m0, sample_rate, beat_per_min,
                (d + 3) as nat) == spec_synth_next(spec_synth_at_chord(rest[0],
                rest.drop_first(), opts), sample_rate, beat_per_min).0)
        }),
{
    let m0 = spec_synth_at_chord(chord, rest, opts);
    let d = spec_voice_of_sound(chord[0], sample_rate, beat_per_min).sample_clock.dur;
    let await_state = SynthModel {
        score: rest,
        cur: Seq::<VoiceModel>::empty(),
        first_finished: true,
        finished: false,
        opts,
    };
    assert forall|n: nat| 1 <= n <= d + 1 implies #[trigger] spec_synth_next(
        spec_synth_run(m0, sample_rate, beat_per_min, (n - 1) as nat), sample_rate,
        beat_per_min).1 == spec_chord_frame(chord, opts, d, n) by {
        lemma_chord_playing(chord, rest, opts, sample_rate, beat_per_min, n);
    }
    // frame d + 2: the first voice is found ended; every voice is dropped.
    lemma_chord_playing(chord, rest, opts, sample_rate, beat_per_min, (d + 1) as nat);
    let last = spec_playing_state(chord, rest, opts, d, (d + 1) as nat);
    assert(forall|i: int| 0 <= i < last.cur.len() ==> (#[trigger] last.cur[i])
        .sample_clock.ended);
    lemma_live_step_all_ended(last.cur, opts.osc);
    assert(last.cur[0].sample_clock.ended);
    assert(spec_synth_next(last, sample_rate, beat_per_min).0 =~~= await_state);
    assert(spec_synth_run(m0, sample_rate, beat_per_min, (d + 2) as nat) == spec_synth_next(
        spec_synth_run(m0, sample_rate, beat_per_min, (d + 1) as nat), sample_rate,
        beat_per_min).0);
    // frame d + 3: the next chord pops, or the instrument finishes.
    if rest.len() == 0 {
        assert(spec_synth_next(await_state, sample_rate, beat_per_min).0.finished);
    } else {
        assert(seq![rest[0]] + rest.drop_first() =~= rest);
        assert(spec_synth_at_chord(rest[0], rest.drop_first(), opts) =~~= await_state);
    }
    assert(spec_synth_run(m0, sample_rate, beat_per_min, (d + 3) as nat) == spec_synth_next(
        await_state, sample_rate, beat_per_min).0);
}

} // verus!
