//! The built-in functions: `tempo`, `play`, `track` and `vib`.
//!
//! They validate their arguments exactly as stated in their contracts:
//! `tempo` takes one positive integer and sets the current tempo; `track`
//! turns notes into an instrument; `vib` hangs a vibrato on every note it
//! is given; `play` builds a song from instruments or notes and queues it
//! for the player.  The octave/duration defaulting rule for bare pitches
//! is `spec_notes_fold`: a bare pitch takes the octave and duration of the
//! last sound that spelled its own, and the first argument must spell
//! both.

use vstd::prelude::*;
use vstd::string::StringExecFns;

use crate::interpreter::object::{
    spec_inspect, Builtin, Chord, Error, Instrument, Null, Sound, SoundObjModel, Sounds, Type,
    TypeModel,
};
use crate::interpreter::text::{spec_dec_digits, u64_to_string};
use crate::player::instrument::{Options, Synth, SynthModel, VoiceModel};
use crate::player::oscillator::{AnalogSaw, Oscillator};
use crate::player::song::Song;
use crate::player::sound::{
    Effect, Octave as POctave, Sound as PSound, SoundModel, Vibrato,
};
use crate::player::tempo::Duration as PDuration;

use std::collections::VecDeque;

verus! {

/// The evaluator's running state outside the environment: the current
/// tempo, set by the `tempo` built-in, and the songs that `play` has built,
/// in playing order, for the embedding player to perform.
#[derive(Debug)]
pub struct EvalState {
    pub tempo: u32,
    pub plays: Vec<Song>,
}

impl EvalState {
    /// A fresh state: no tempo set, nothing to play.
    pub fn new() -> (r: Self)
        ensures
            r.tempo == 0,
            r.plays@.len() == 0,
    {
        Self { tempo: 0, plays: Vec::new() }
    }
}

/// The built-in a name denotes.
pub open spec fn spec_builtin_of(name: Seq<char>) -> Option<Builtin> {
    if name == "tempo"@ {
        Some(Builtin::Tempo)
    } else if name == "play"@ {
        Some(Builtin::Play)
    } else if name == "track"@ {
        Some(Builtin::Track)
    } else if name == "vib"@ {
        Some(Builtin::Vib)
    } else {
        None
    }
}

/// The built-in a name denotes.
pub fn builtin_of(name: &str) -> (r: Option<Builtin>)
    ensures
        r == spec_builtin_of(name@),
{
    if crate::interpreter::text::str_eq(name, "tempo") {
        Some(Builtin::Tempo)
    } else if crate::interpreter::text::str_eq(name, "play") {
        Some(Builtin::Play)
    } else if crate::interpreter::text::str_eq(name, "track") {
        Some(Builtin::Track)
    } else if crate::interpreter::text::str_eq(name, "vib") {
        Some(Builtin::Vib)
    } else {
        None
    }
}

/// The default instrument options: the analog-saw waveform.
pub fn new_opts() -> (r: Options)
    ensures
        r == (Options { osc: Oscillator::AnalogSaw(AnalogSaw {}) }),
{
    Options { osc: Oscillator::AnalogSaw(AnalogSaw::new()) }
}

/// The running state of the note-folding rule: the chords built so far,
/// the octave and duration a bare pitch would inherit, and how many sound
/// arguments have been consumed.
pub struct NotesAcc {
    pub sounds: Seq<Seq<SoundModel>>,
    pub def_oct: POctave,
    pub def_dur: PDuration,
    pub i: int,
}

/// The message rejecting an argument that is not a note.
pub open spec fn spec_expected_note_msg(i: int, ins: Seq<char>) -> Seq<char> {
    "expected note, argument "@ + spec_dec_digits(i) + " is "@ + ins
}

/// One step of the note-folding rule: a sound plays alone and
/// resets the defaults; a bare pitch plays alone at the default octave and
/// duration; a chord or a sound list plays as given.
pub open spec fn spec_notes_fold(args: Seq<TypeModel>, acc: NotesAcc, line: int)
    -> Result<Seq<Seq<SoundModel>>, Seq<char>>
    decreases args.len(),
{
    if args.len() == 0 {
        Ok(acc.sounds)
    } else {
        match args[0] {
            TypeModel::Sound(s) => spec_notes_fold(args.drop_first(), NotesAcc {
                sounds: acc.sounds.push(seq![s.sound]),
                def_oct: s.sound.octave,
                def_dur: s.sound.duration,
                i: acc.i + 1,
            }, line),
            TypeModel::Note(n) => spec_notes_fold(args.drop_first(), NotesAcc {
                sounds: acc.sounds.push(seq![SoundModel {
                    note: n,
                    octave: acc.def_oct,
                    duration: acc.def_dur,
                    effects: None,
                }]),
                def_oct: acc.def_oct,
                def_dur: acc.def_dur,
                i: acc.i,
            }, line),
            TypeModel::Chord(c) => spec_notes_fold(args.drop_first(), NotesAcc {
                sounds: acc.sounds.push(c.map_values(|so: SoundObjModel| so.sound)),
                def_oct: acc.def_oct,
                def_dur: acc.def_dur,
                i: acc.i,
            }, line),
            TypeModel::Sounds(ss) => spec_notes_fold(args.drop_first(), NotesAcc {
                sounds: acc.sounds + ss.map_values(|ch: Seq<SoundObjModel>| ch.map_values(
                    |so: SoundObjModel| so.sound)),
                def_oct: acc.def_oct,
                def_dur: acc.def_dur,
                i: acc.i,
            }, line),
            other => Err(spec_expected_note_msg(acc.i, spec_inspect(other))),
        }
    }
}

/// The message rejecting a first note without an explicit octave and
/// duration.
pub open spec fn spec_first_note_msg() -> Seq<char> {
    "expected first note to have an octave and duration"@
}

/// The message rejecting an empty note list.
pub open spec fn spec_track_zero_msg() -> Seq<char> {
    "zero arguments given to track. i am expecting notes"@
}

/// The initial defaults of the note-folding rule, read from the first
/// argument: a sound or an unmodified chord head spells them; a modified
/// chord head is rejected; anything else is rejected unless it is a sound
/// list, which keeps the built-in defaults.
pub open spec fn spec_initial_defaults(first: TypeModel) -> Result<(POctave, PDuration),
    Seq<char>> {
    match first {
        TypeModel::Sound(s) => Ok((s.sound.octave, s.sound.duration)),
        TypeModel::Chord(c) => if c.len() == 0 {
            Ok((POctave::One, PDuration::Whole))
        } else if c[0].modified {
            Err(spec_first_note_msg())
        } else {
            Ok((c[0].sound.octave, c[0].sound.duration))
        },
        TypeModel::Sounds(_) => Ok((POctave::One, PDuration::Whole)),
        _ => Err(spec_first_note_msg()),
    }
}

/// The whole note-folding rule: what `track`, `vib` and `play` make of a
/// list of note-like arguments.
pub open spec fn spec_notes_to_sounds(args: Seq<TypeModel>, line: int)
    -> Result<Seq<Seq<SoundModel>>, Seq<char>> {
    if args.len() == 0 {
        Err(spec_track_zero_msg())
    } else {
        match spec_initial_defaults(args[0]) {
            Err(m) => Err(m),
            Ok((def_oct, def_dur)) => spec_notes_fold(args, NotesAcc {
                sounds: Seq::empty(),
                def_oct,
                def_dur,
                i: 0,
            }, line),
        }
    }
}

/// Turn note-like arguments into the chords they spell, or the error value
/// rejecting them.
pub fn notes_to_sounds(args: Vec<Type>, line: usize) -> (r: Result<VecDeque<Vec<PSound>>, Type>)
    ensures
        match spec_notes_to_sounds(args.deep_view(), line as int) {
            Ok(sounds) => r matches Ok(v) && v.deep_view() == sounds,
            Err(m) => r matches Err(e) && e@ == TypeModel::Error(m, line as int),
        },
{
    let ghost argsv = args.deep_view();
    if args.len() == 0 {
        return Err(Type::Error(Error {
            msg: String::from_str("zero arguments given to track. i am expecting notes"),
            line,
        }));
    }
    let mut def_oct = POctave::One;
    let mut def_dur = PDuration::Whole;
    match &args[0] {
        Type::Sound(sound) => {
            def_oct = sound.sound.octave;
            def_dur = sound.sound.duration;
        }
        Type::Chord(chord) => {
            if chord.sounds.len() > 0 {
                let first = &chord.sounds[0];
                if first.modified {
                    return Err(Type::Error(Error {
                        msg: String::from_str(
                            "expected first note to have an octave and duration"),
                        line,
                    }));
                }
                def_oct = first.sound.octave;
                def_dur = first.sound.duration;
            }
        }
        Type::Sounds(_) => {}
        _ => {
            return Err(Type::Error(Error {
                msg: String::from_str("expected first note to have an octave and duration"),
                line,
            }));
        }
    }
    let mut sounds: VecDeque<Vec<PSound>> = VecDeque::new();
    let mut i: u64 = 0;
    let mut k: usize = 0;
    let n = args.len();
    proof {
        assert(argsv.skip(0) =~= argsv);
        assert(sounds.deep_view() =~= Seq::<Seq<SoundModel>>::empty());
        assert(spec_initial_defaults(argsv[0]) == Ok::<_, Seq<char>>((def_oct, def_dur)));
    }
    while k < n
        invariant
            n == argsv.len(),
            k <= n,
            argsv == args.deep_view(),
            i <= k,
            spec_notes_to_sounds(argsv, line as int) == spec_notes_fold(argsv.skip(k as int),
                NotesAcc {
                    sounds: sounds.deep_view(),
                    def_oct,
                    def_dur,
                    i: i as int,
                }, line as int),
        decreases n - k,
    {
        let ghost pre_sounds = sounds.deep_view();
        let ghost predq = sounds;
        proof {
            assert(argsv.skip(k as int)[0] == argsv[k as int]);
            assert(argsv.skip(k as int).drop_first() =~= argsv.skip(k + 1));
        }
        match &args[k] {
            Type::Sound(sound) => {
                let s = sound.sound.dup();
                def_oct = s.octave;
                def_dur = s.duration;
                let mut chord: Vec<PSound> = Vec::new();
                chord.push(s);
                let ghost chordg = chord;
                sounds.push_back(chord);
                proof {
                    assert(chordg.deep_view() =~= seq![argsv[k as int]->Sound_0.sound]);
                    crate::views::lemma_deque_deep_view_push(predq, sounds, chordg);
                }
                i = i + 1;
            }
            Type::Note(nn) => {
                let s = PSound::new(nn.note, def_oct, def_dur);
                let mut chord: Vec<PSound> = Vec::new();
                chord.push(s);
                let ghost chordg = chord;
                sounds.push_back(chord);
                proof {
                    assert(chordg.deep_view() =~= seq![SoundModel {
                        note: argsv[k as int]->Note_0,
                        octave: def_oct,
                        duration: def_dur,
                        effects: None,
                    }]);
                    crate::views::lemma_deque_deep_view_push(predq, sounds, chordg);
                }
            }
            Type::Chord(chord) => {
                let vs = chord_to_psounds(chord);
                let ghost vg = vs;
                sounds.push_back(vs);
                proof {
                    crate::views::lemma_deque_deep_view_push(predq, sounds, vg);
                }
            }
            Type::Sounds(ss) => {
                let ghost ssv = ss@;
                let m = ss.chords.len();
                let mut j: usize = 0;
                while j < m
                    invariant
                        m == ssv.len(),
                        j <= m,
                        ss@ == ssv,
                        sounds.deep_view() =~= pre_sounds + ssv.subrange(0, j as int)
                            .map_values(|ch: Seq<SoundObjModel>| ch.map_values(
                            |so: SoundObjModel| so.sound)),
                    decreases m - j,
                {
                    let ghost mid = sounds.deep_view();
                    let ghost middq = sounds;
                    let vs = chord_to_psounds(&ss.chords[j]);
                    let ghost vg = vs;
                    sounds.push_back(vs);
                    proof {
                        crate::views::lemma_deque_deep_view_push(middq, sounds, vg);
                        assert(ssv.subrange(0, j + 1) =~= ssv.subrange(0, j as int).push(
                            ssv[j as int]));
                        assert(ssv.subrange(0, j + 1).map_values(
                            |ch: Seq<SoundObjModel>| ch.map_values(
                            |so: SoundObjModel| so.sound)) =~= ssv.subrange(0, j as int)
                            .map_values(|ch: Seq<SoundObjModel>| ch.map_values(
                            |so: SoundObjModel| so.sound)).push(ssv[j as int].map_values(
                            |so: SoundObjModel| so.sound)));
                        assert(sounds.deep_view() =~= pre_sounds + ssv.subrange(0, j + 1)
                            .map_values(|ch: Seq<SoundObjModel>| ch.map_values(
                            |so: SoundObjModel| so.sound)));
                    }
                    j = j + 1;
                }
                proof {
                    assert(ssv.subrange(0, m as int) =~= ssv);
                    assert(sounds.deep_view() =~= pre_sounds + ssv.map_values(
                        |ch: Seq<SoundObjModel>| ch.map_values(
                        |so: SoundObjModel| so.sound)));
                }
            }
            _ => {
                let info = (&args[k]).inspect();
                let mut msg = String::from_str("expected note, argument ");
                let num = u64_to_string(i);
                msg.append(num.as_str());
                msg.append(" is ");
                msg.append(info.as_str());
                proof {
                    assert(msg@ =~= spec_expected_note_msg(i as int, spec_inspect(
                        argsv[k as int])));
                }
                return Err(Type::Error(Error { msg, line }));
            }
        }
        k = k + 1;
    }
    proof {
        assert(argsv.skip(n as int).len() == 0);
    }
    Ok(sounds)
}

/// The instrument a list of chords spells: a fresh synth over that score
/// with the default options.
pub open spec fn spec_synth_of(sounds: Seq<Seq<SoundModel>>) -> SynthModel {
    SynthModel {
        score: sounds,
        cur: Seq::<VoiceModel>::empty(),
        first_finished: true,
        finished: false,
        opts: Options { osc: Oscillator::AnalogSaw(AnalogSaw {}) },
    }
}

/// Turn note-like arguments into an instrument, or the error value
/// rejecting them.
pub fn notes_to_ins(args: Vec<Type>, line: usize) -> (r: Result<Synth, Type>)
    ensures
        match spec_notes_to_sounds(args.deep_view(), line as int) {
            Ok(sounds) => r matches Ok(s) && s@ == spec_synth_of(sounds),
            Err(m) => r matches Err(e) && e@ == TypeModel::Error(m, line as int),
        },
{
    match notes_to_sounds(args, line) {
        Ok(sounds) => Ok(Synth::new(new_opts(), sounds)),
        Err(e) => Err(e),
    }
}

/// The message rejecting a `play` argument that is not an instrument.
pub open spec fn spec_expected_ins_msg(i: int, ins: Seq<char>) -> Seq<char> {
    "expected instrument, argument "@ + spec_dec_digits(i) + " is "@ + ins
}

/// Collecting `play`'s instrument arguments: every argument must be an
/// instrument; the first that is not is rejected by its position.
pub open spec fn spec_ins_fold(args: Seq<TypeModel>, acc: Seq<SynthModel>, line: int)
    -> Result<Seq<SynthModel>, Seq<char>>
    decreases args.len(),
{
    if args.len() == 0 {
        Ok(acc)
    } else {
        match args[0] {
            TypeModel::Instrument(m) => spec_ins_fold(args.drop_first(), acc.push(m), line),
            other => Err(spec_expected_ins_msg(acc.len() as int, spec_inspect(other))),
        }
    }
}

/// The message rejecting a call of `play` without arguments.
pub open spec fn spec_play_no_args_msg() -> Seq<char> {
    "zero arguments given to play. what am i supposed to play, huh?"@
}

/// The message rejecting a `tempo` call with the wrong number of
/// arguments.
pub open spec fn spec_tempo_args_msg(n: int) -> Seq<char> {
    "wrong number of arguments. got="@ + spec_dec_digits(n) + ", want=1"@
}

/// The message rejecting a non-positive tempo.
pub open spec fn spec_tempo_low_msg() -> Seq<char> {
    "tempo should be higher than 0"@
}

/// The message rejecting a non-integer tempo.
pub open spec fn spec_tempo_type_msg(ins: Seq<char>) -> Seq<char> {
    "invalid tempo: expected integer, got "@ + ins
}

/// What a `tempo` call yields, and the tempo it leaves behind: exactly one
/// argument, a positive integer; anything else is rejected and the old
/// tempo stands.
pub open spec fn spec_apply_tempo(args: Seq<TypeModel>, line: int, tempo0: u32)
    -> (TypeModel, u32) {
    if args.len() != 1 {
        (TypeModel::Error(spec_tempo_args_msg(args.len() as int), line), tempo0)
    } else {
        match args[0] {
            TypeModel::Int(v) => if v <= 0 {
                (TypeModel::Error(spec_tempo_low_msg(), line), tempo0)
            } else {
                (TypeModel::Null, v as u32)
            },
            other => (TypeModel::Error(spec_tempo_type_msg(spec_inspect(other)), line),
                tempo0),
        }
    }
}

/// What a `track` call yields: an instrument over the folded score, or the
/// error rejecting the notes.
pub open spec fn spec_apply_track(args: Seq<TypeModel>, line: int) -> TypeModel {
    match spec_notes_to_sounds(args, line) {
        Ok(sounds) => TypeModel::Instrument(spec_synth_of(sounds)),
        Err(m) => TypeModel::Error(m, line),
    }
}

/// Set the current tempo: exactly one argument, a positive integer.
/// Anything else is rejected and the state is left alone.
pub fn builtin_tempo(args: Vec<Type>, line: usize, state: &mut EvalState) -> (r: Type)
    ensures
        r@ == spec_apply_tempo(args.deep_view(), line as int, old(state).tempo).0,
        final(state).tempo == spec_apply_tempo(args.deep_view(), line as int, old(
            state).tempo).1,
        final(state).plays == old(state).plays,
{
    if args.len() != 1 {
        let mut msg = String::from_str("wrong number of arguments. got=");
        let num = u64_to_string(args.len() as u64);
        msg.append(num.as_str());
        msg.append(", want=1");
        proof {
            assert(msg@ =~= spec_tempo_args_msg(args.deep_view().len() as int));
        }
        return Type::Error(Error { msg, line });
    }
    match &args[0] {
        Type::Int(tempo) => {
            if *tempo <= 0 {
                return Type::Error(Error {
                    msg: String::from_str("tempo should be higher than 0"),
                    line,
                });
            }
            state.tempo = *tempo as u32;
            Type::Null
        }
        other => {
            let ins = other.inspect();
            let mut msg = String::from_str("invalid tempo: expected integer, got ");
            msg.append(ins.as_str());
            Type::Error(Error { msg, line })
        }
    }
}

/// Build an instrument from notes: `track(notes...)` wraps the
/// folded score in a fresh synth.
pub fn builtin_track(args: Vec<Type>, line: usize) -> (r: Type)
    ensures
        r@ == spec_apply_track(args.deep_view(), line as int),
{
    match notes_to_ins(args, line) {
        Ok(ins) => Type::Instrument(Instrument::new(ins)),
        Err(e) => e,
    }
}

/// The message rejecting a `vib` call with too few arguments.
pub open spec fn spec_vib_args_msg() -> Seq<char> {
    "expecting at least 1 (note, sound, track), depth and phase for vibrato"@
}

/// The message rejecting a non-integer vibrato speed.
pub open spec fn spec_vib_speed_msg(ins: Seq<char>) -> Seq<char> {
    "invalid speed: expected integer, got "@ + ins
}

/// The message rejecting a non-integer vibrato depth.
pub open spec fn spec_vib_depth_msg(ins: Seq<char>) -> Seq<char> {
    "invalid phase: expected integer, got "@ + ins
}

/// A sound with a vibrato of the given depth and speed added to its
/// effects.
pub open spec fn spec_vibbed_sound(s: SoundModel, depth: i32, speed: i32) -> SoundObjModel {
    SoundObjModel {
        sound: SoundModel {
            note: s.note,
            octave: s.octave,
            duration: s.duration,
            effects: Some(match s.effects {
                Some(e) => e.push(Effect::Vibrato(Vibrato { depth, speed })),
                None => seq![Effect::Vibrato(Vibrato { depth, speed })],
            }),
        },
        modified: false,
    }
}

/// Every sound of every chord, with the vibrato added.
pub open spec fn spec_vibbed(sounds: Seq<Seq<SoundModel>>, depth: i32, speed: i32)
    -> Seq<Seq<SoundObjModel>> {
    sounds.map_values(|ch: Seq<SoundModel>| ch.map_values(|s: SoundModel| spec_vibbed_sound(s,
        depth, speed)))
}

/// What a `vib` call yields: the folded chords with the vibrato on every
/// sound, or the error rejecting its arguments.
pub open spec fn spec_apply_vib(args: Seq<TypeModel>, line: int) -> TypeModel {
    if args.len() < 3 {
        TypeModel::Error(spec_vib_args_msg(), line)
    } else {
        match (args[0], args[1]) {
            (TypeModel::Int(speed), TypeModel::Int(depth)) => match spec_notes_to_sounds(
                args.skip(2), line) {
                Ok(sounds) => TypeModel::Sounds(spec_vibbed(sounds, depth, speed)),
                Err(m) => TypeModel::Error(m, line),
            },
            (TypeModel::Int(_), other) => TypeModel::Error(spec_vib_depth_msg(spec_inspect(
                other)), line),
            (other, _) => TypeModel::Error(spec_vib_speed_msg(spec_inspect(other)), line),
        }
    }
}

/// Hang a widening vibrato on notes: `vib(speed, depth, notes...)`
/// returns the folded chords with a `Vibrato(depth, speed)` on every
/// sound.
pub fn builtin_vibrato(args: Vec<Type>, line: usize) -> (r: Type)
    ensures
        r@ == spec_apply_vib(args.deep_view(), line as int),
{
    let ghost argsv = args.deep_view();
    if args.len() < 3 {
        return Type::Error(Error {
            msg: String::from_str(
                "expecting at least 1 (note, sound, track), depth and phase for vibrato"),
            line,
        });
    }
    let speed: i32 = match &args[0] {
        Type::Int(v) => *v,
        other => {
            let ins = other.inspect();
            let mut msg = String::from_str("invalid speed: expected integer, got ");
            msg.append(ins.as_str());
            return Type::Error(Error { msg, line });
        }
    };
    let depth: i32 = match &args[1] {
        Type::Int(v) => *v,
        other => {
            let ins = other.inspect();
            let mut msg = String::from_str("invalid phase: expected integer, got ");
            msg.append(ins.as_str());
            return Type::Error(Error { msg, line });
        }
    };
    let mut args = args;
    let rest = args.split_off(2);
    proof {
        assert(rest.deep_view() =~= argsv.skip(2));
    }
    let sounds = match notes_to_sounds(rest, line) {
        Ok(s) => s,
        Err(e) => {
            return e;
        }
    };
    let ghost soundsv = sounds.deep_view();
    let mut chords: VecDeque<Chord> = VecDeque::new();
    let n = sounds.len();
    let mut k: usize = 0;
    while k < n
        invariant
            n == soundsv.len(),
            k <= n,
            sounds.deep_view() == soundsv,
            chords@.len() == k,
            forall|j: int| 0 <= j < k ==> (#[trigger] chords@[j])@ == spec_vibbed(soundsv,
                depth, speed)[j],
        decreases n - k,
    {
        let chord_sounds = &sounds[k];
        let m = chord_sounds.len();
        let mut out: Vec<Sound> = Vec::new();
        let mut j: usize = 0;
        while j < m
            invariant
                m == chord_sounds@.len(),
                k < n,
                n == soundsv.len(),
                sounds.deep_view() == soundsv,
                chord_sounds@ == sounds@[k as int]@,
                j <= m,
                out@.len() == j,
                forall|t: int| 0 <= t < j ==> (#[trigger] out@[t])@ == spec_vibbed_sound(
                    soundsv[k as int][t], depth, speed),
            decreases m - j,
        {
            let s = &chord_sounds[j];
            let effects: Vec<Effect> = match &s.effects {
                Some(e) => {
                    let mut v = crate::player::sound::dup_effects(e);
                    v.push(Effect::Vibrato(Vibrato { depth, speed }));
                    v
                }
                None => {
                    let mut v: Vec<Effect> = Vec::new();
                    v.push(Effect::Vibrato(Vibrato { depth, speed }));
                    v
                }
            };
            let vibbed = PSound {
                note: s.note,
                octave: s.octave,
                duration: s.duration,
                effects: Some(effects),
            };
            proof {
                assert(sounds.deep_view()[k as int] == sounds@[k as int].deep_view());
                assert(s@ == soundsv[k as int][j as int]);
                assert(vibbed@ == spec_vibbed_sound(soundsv[k as int][j as int], depth,
                    speed).sound);
            }
            out.push(Sound { sound: vibbed, modified: false });
            j = j + 1;
        }
        let c = Chord::new(out);
        proof {
            assert(c@ =~= soundsv[k as int].map_values(|s: SoundModel| spec_vibbed_sound(s,
                depth, speed)));
            assert(c@ == spec_vibbed(soundsv, depth, speed)[k as int]);
        }
        chords.push_back(c);
        k = k + 1;
    }
    proof {
        assert forall|j: int| 0 <= j < n implies chords.deep_view()[j] == spec_vibbed(
            soundsv, depth, speed)[j] by {
            assert(chords@[j]@ == spec_vibbed(soundsv, depth, speed)[j]);
        }
        assert(chords.deep_view() =~= spec_vibbed(soundsv, depth, speed));
    }
    Type::Sounds(Sounds::new(chords))
}

/// The message rejecting a `play` argument that is neither notes nor an
/// instrument.
pub open spec fn spec_play_invalid_msg(ins: Seq<char>) -> Seq<char> {
    "invalid argument for play "@ + ins
}

/// What a `play` call yields, and the instruments of the one song it
/// queues (where it queues one): instruments play together; notes fold
/// into one instrument; anything else is rejected.
pub open spec fn spec_apply_play(args: Seq<TypeModel>, line: int)
    -> (TypeModel, Option<Seq<SynthModel>>) {
    if args.len() == 0 {
        (TypeModel::Error(spec_play_no_args_msg(), line), None)
    } else {
        match args[0] {
            TypeModel::Instrument(_) => match spec_ins_fold(args, Seq::<SynthModel>::empty(),
                line) {
                Ok(ms) => (TypeModel::Null, Some(ms)),
                Err(m) => (TypeModel::Error(m, line), None),
            },
            TypeModel::Sound(_) | TypeModel::Chord(_) | TypeModel::Sounds(_) => match
                spec_notes_to_sounds(args, line) {
                Ok(sounds) => (TypeModel::Null, Some(seq![spec_synth_of(sounds)])),
                Err(m) => (TypeModel::Error(m, line), None),
            },
            other => (TypeModel::Error(spec_play_invalid_msg(spec_inspect(other)), line),
                None),
        }
    }
}

/// Build a song and queue it for the player: `play` of instruments
/// plays them together; `play` of notes wraps them in one instrument.  The
/// song takes the current tempo; playing it is the embedding player's job,
/// in queue order.
pub fn builtin_play(args: Vec<Type>, line: usize, state: &mut EvalState) -> (r: Type)
    ensures
        r@ == spec_apply_play(args.deep_view(), line as int).0,
        final(state).tempo == old(state).tempo,
        match spec_apply_play(args.deep_view(), line as int).1 {
            Some(ins) => spec_played(*old(state), *final(state), ins),
            None => *final(state) == *old(state),
        },
{
    let ghost argsv = args.deep_view();
    if args.len() == 0 {
        return Type::Error(Error {
            msg: String::from_str("zero arguments given to play. what am i supposed to play, huh?"),
            line,
        });
    }
    let is_ins = matches!(&args[0], Type::Instrument(_));
    let is_notes = matches!(&args[0], Type::Sound(_) | Type::Chord(_) | Type::Sounds(_));
    if is_ins {
        let mut song = Song::new(state.tempo);
        let ghost tempo0 = state.tempo;
        let ghost plays0 = state.plays;
        let n = args.len();
        let mut k: usize = 0;
        proof {
            assert(argsv.skip(0) =~= argsv);
            crate::views::lemma_vec_deep_view_empty(song.instruments);
        }
        while k < n
            invariant
                n == argsv.len(),
                k <= n,
                args@.len() == n,
                args.deep_view() == argsv,
                n > 0,
                argsv[0] is Instrument,
                song.start_tempo == tempo0,
                song.tempo_changes@.len() == 0,
                song.tempo_cum == 0,
                *state == *old(state),
                state.tempo == tempo0,
                spec_ins_fold(argsv, Seq::<SynthModel>::empty(), line as int) == spec_ins_fold(
                    argsv.skip(k as int), song.instruments.deep_view(), line as int),
            decreases n - k,
        {
            proof {
                assert(argsv.skip(k as int)[0] == argsv[k as int]);
                assert(argsv.skip(k as int).drop_first() =~= argsv.skip(k + 1));
            }
            let ghost pre_ins = song.instruments;
            match &args[k] {
                Type::Instrument(insobj) => {
                    let synth = crate::interpreter::object::dup_synth(&insobj.ins);
                    let ghost sg = synth;
                    song.instruments.push(synth);
                    proof {
                        assert(args@[k as int].deep_view() == argsv[k as int]);
                        crate::views::lemma_vec_deep_view_push(pre_ins, song.instruments, sg);
                    }
                }
                other => {
                    let info = other.inspect();
                    let mut msg = String::from_str("expected instrument, argument ");
                    let num = u64_to_string(song.instruments.len() as u64);
                    msg.append(num.as_str());
                    msg.append(" is ");
                    msg.append(info.as_str());
                    proof {
                        assert(args@[k as int].deep_view() == argsv[k as int]);
                        assert(msg@ =~= spec_expected_ins_msg(
                            song.instruments.deep_view().len() as int, spec_inspect(
                            argsv[k as int])));
                    }
                    return Type::Error(Error { msg, line });
                }
            }
            k = k + 1;
        }
        proof {
            assert(argsv.skip(n as int).len() == 0);
        }
        let ghost preplays = state.plays@;
        state.plays.push(song);
        proof {
            assert(state.plays@.drop_last() =~= preplays);
        }
        return Type::Null;
    }
    if is_notes {
        match notes_to_sounds(args, line) {
            Ok(sounds) => {
                let mut song = Song::new(state.tempo);
                let synth = Synth::new(new_opts(), sounds);
                let ghost sg = synth;
                let ghost pre_ins = song.instruments;
                song.push_instrument(synth);
                proof {
                    crate::views::lemma_vec_deep_view_push(pre_ins, song.instruments, sg);
                    assert(song.instruments.deep_view() =~= seq![sg@]);
                }
                let ghost preplays = state.plays@;
                state.plays.push(song);
                proof {
                    assert(state.plays@.drop_last() =~= preplays);
                }
                return Type::Null;
            }
            Err(e) => {
                return e;
            }
        }
    }
    let ins = (&args[0]).inspect();
    let mut msg = String::from_str("invalid argument for play ");
    msg.append(ins.as_str());
    Type::Error(Error { msg, line })
}

/// What queueing a song does to the state: the tempo is untouched, and one
/// song at the current tempo, holding exactly `instruments`, lands at the
/// end of the play queue.
pub open spec fn spec_played(pre: EvalState, post: EvalState, instruments: Seq<SynthModel>)
    -> bool {
    &&& post.tempo == pre.tempo
    &&& post.plays@.len() == pre.plays@.len() + 1
    &&& post.plays@.drop_last() == pre.plays@
    &&& post.plays@.last().start_tempo == pre.tempo
    &&& post.plays@.last().tempo_changes@.len() == 0
    &&& post.plays@.last().instruments.deep_view() == instruments
}

/// The playable sounds of a chord value, in order.
pub fn chord_to_psounds(chord: &Chord) -> (r: Vec<PSound>)
    ensures
        r.deep_view() == chord@.map_values(|so: SoundObjModel| so.sound),
{
    let mut out: Vec<PSound> = Vec::new();
    let n = chord.sounds.len();
    let mut i: usize = 0;
    while i < n
        invariant
            n == chord.sounds@.len(),
            i <= n,
            out@.len() == i,
            forall|j: int| 0 <= j < i ==> out@[j]@ == chord.sounds@[j]@.sound,
        decreases n - i,
    {
        let s = (&chord.sounds[i]).sound.dup();
        out.push(s);
        i = i + 1;
    }
    proof {
        assert forall|j: int| 0 <= j < n implies out.deep_view()[j] == chord@.map_values(
            |so: SoundObjModel| so.sound)[j] by {
            assert(out@[j]@ == chord.sounds@[j]@.sound);
        }
        assert(out.deep_view() =~= chord@.map_values(|so: SoundObjModel| so.sound));
    }
    out
}

} // verus!
