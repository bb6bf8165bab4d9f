//! The runtime values of the score language.
//!
//! Every value the evaluator handles is a case of the `Type` sum: integers,
//! strings, notes, octaves, durations, sounds, chords, sound sequences,
//! instruments, built-in functions, errors, and null.  `Env` is the
//! variable environment: name bindings with an optional enclosing scope.

use vstd::prelude::*;

use crate::player::instrument::{Synth, SynthModel};
use crate::player::sound::{Note as PNote, Octave as POctave, Sound as PSound, SoundModel};
use crate::player::tempo::Duration as PDuration;

use std::collections::VecDeque;
use vstd::string::StringExecFns;

verus! {

/// A note-length value.
#[derive(Debug)]
pub struct Duration {
    pub dur: PDuration,
}

impl Duration {
    pub fn new(dur: PDuration) -> (r: Self)
        ensures
            r.dur == dur,
    {
        Self { dur }
    }

    pub fn get_dur(&self) -> (r: PDuration)
        ensures
            r == self.dur,
    {
        self.dur
    }
}

/// An octave value.
#[derive(Debug)]
pub struct Octave {
    pub octave: POctave,
}

impl Octave {
    pub fn new(octave: POctave) -> (r: Self)
        ensures
            r.octave == octave,
    {
        Self { octave }
    }

    pub fn get_oct(&self) -> (r: POctave)
        ensures
            r == self.octave,
    {
        self.octave
    }
}

/// A pitch value.
#[derive(Debug)]
pub struct Note {
    pub note: PNote,
}

impl Note {
    pub fn new(note: PNote) -> (r: Self)
        ensures
            r.note == note,
    {
        Self { note }
    }

    pub fn get_note(&self) -> (r: PNote)
        ensures
            r == self.note,
    {
        self.note
    }
}

/// A sound value: a playable sound, and whether its octave and duration
/// were inherited from an earlier note rather than written out.
#[derive(Debug)]
pub struct Sound {
    pub sound: PSound,
    pub modified: bool,
}

/// The mathematical shape of a `Sound` value.
pub struct SoundObjModel {
    pub sound: SoundModel,
    pub modified: bool,
}

impl View for Sound {
    type V = SoundObjModel;

    open spec fn view(&self) -> SoundObjModel {
        SoundObjModel { sound: self.sound@, modified: self.modified }
    }
}

impl DeepView for Sound {
    type V = SoundObjModel;

    open spec fn deep_view(&self) -> SoundObjModel {
        self.view()
    }
}

impl Sound {
    pub fn new(sound: PSound, modified: bool) -> (r: Self)
        ensures
            r@ == (SoundObjModel { sound: sound@, modified }),
    {
        Self { sound, modified }
    }

    pub fn get_sound(self) -> (r: PSound)
        ensures
            r@ == self@.sound,
    {
        self.sound
    }

    /// An equal copy of this sound value.
    pub fn dup(&self) -> (r: Self)
        ensures
            r@ == self@,
    {
        Sound { sound: self.sound.dup(), modified: self.modified }
    }
}

/// A chord value: sounds that strike together.
#[derive(Debug)]
pub struct Chord {
    pub sounds: Vec<Sound>,
}

impl View for Chord {
    type V = Seq<SoundObjModel>;

    open spec fn view(&self) -> Seq<SoundObjModel> {
        self.sounds.deep_view()
    }
}

impl DeepView for Chord {
    type V = Seq<SoundObjModel>;

    open spec fn deep_view(&self) -> Seq<SoundObjModel> {
        self.view()
    }
}

impl Chord {
    pub fn new(sounds: Vec<Sound>) -> (r: Self)
        ensures
            r@ == sounds.deep_view(),
    {
        Self { sounds }
    }

    pub fn get_sounds(self) -> (r: Vec<Sound>)
        ensures
            r.deep_view() == self@,
    {
        self.sounds
    }

    /// An equal copy of this chord.
    pub fn dup(&self) -> (r: Self)
        ensures
            r@ == self@,
    {
        Chord { sounds: dup_sound_objs(&self.sounds) }
    }
}

/// An equal copy of a list of sound values.
pub fn dup_sound_objs(v: &Vec<Sound>) -> (r: Vec<Sound>)
    ensures
        r.deep_view() == v.deep_view(),
{
    let mut out: Vec<Sound> = Vec::new();
    let mut i: usize = 0;
    while i < v.len()
        invariant
            i <= v@.len(),
            out@.len() == i,
            forall|j: int| 0 <= j < i ==> out@[j]@ == v@[j]@,
        decreases v@.len() - i,
    {
        let d = (&v[i]).dup();
        out.push(d);
        i = i + 1;
    }
    proof {
        assert forall|j: int| 0 <= j < v@.len() implies out.deep_view()[j]
            == v.deep_view()[j] by {
            assert(out@[j]@ == v@[j]@);
        }
        assert(out.deep_view() =~= v.deep_view());
    }
    out
}

/// A sequence-of-chords value, as the `vib` built-in returns.
#[derive(Debug)]
pub struct Sounds {
    pub chords: VecDeque<Chord>,
}

impl View for Sounds {
    type V = Seq<Seq<SoundObjModel>>;

    open spec fn view(&self) -> Seq<Seq<SoundObjModel>> {
        self.chords.deep_view()
    }
}

impl Sounds {
    pub fn new(chords: VecDeque<Chord>) -> (r: Self)
        ensures
            r@ == chords.deep_view(),
    {
        Self { chords }
    }

    pub fn get_sounds(self) -> (r: VecDeque<Chord>)
        ensures
            r.deep_view() == self@,
    {
        self.chords
    }
}

/// An instrument value: a synth ready to play.
#[derive(Debug)]
pub struct Instrument {
    pub ins: Synth,
}

impl View for Instrument {
    type V = SynthModel;

    open spec fn view(&self) -> SynthModel {
        self.ins@
    }
}

impl Instrument {
    pub fn new(ins: Synth) -> (r: Self)
        ensures
            r@ == ins@,
    {
        Self { ins }
    }

    pub fn get_instrument(self) -> (r: Synth)
        ensures
            r@ == self@,
    {
        self.ins
    }
}

/// A time signature value; carried in the data model, unused by synthesis.
#[derive(Debug)]
pub struct TimeSignature {
    pub n: u32,
    pub dur: u32,
}

/// The null value.
#[derive(Debug)]
pub struct Null {}

/// An integer value.
#[derive(Debug)]
pub struct IntObj {
    pub value: i32,
}

/// A string value.
#[derive(Debug)]
pub struct StringObj {
    pub value: String,
}

/// An error value: a message and the source line it arose on.
#[derive(Debug)]
pub struct Error {
    pub msg: String,
    pub line: usize,
}

/// The built-in functions of the language.
#[derive(Debug, Clone, Copy, PartialEq, Eq, Structural)]
pub enum Builtin {
    Tempo,
    Play,
    Track,
    Vib,
}

/// A runtime value.
#[derive(Debug)]
pub enum Type {
    Int(i32),
    String(String),
    Builtin(Builtin),
    TimeSignature(TimeSignature),
    Error(Error),
    Sound(Sound),
    Note(Note),
    Octave(Octave),
    Duration(Duration),
    Chord(Chord),
    Sounds(Sounds),
    Instrument(Instrument),
    Null,
}

/// The mathematical shape of a runtime value.
pub enum TypeModel {
    Int(i32),
    String(Seq<char>),
    Builtin(Builtin),
    TimeSignature(u32, u32),
    Error(Seq<char>, int),
    Sound(SoundObjModel),
    Note(PNote),
    Octave(POctave),
    Duration(PDuration),
    Chord(Seq<SoundObjModel>),
    Sounds(Seq<Seq<SoundObjModel>>),
    Instrument(SynthModel),
    Null,
}

impl View for Type {
    type V = TypeModel;

    open spec fn view(&self) -> TypeModel {
        match self {
            Type::Int(v) => TypeModel::Int(*v),
            Type::String(s) => TypeModel::String(s@),
            Type::Builtin(b) => TypeModel::Builtin(*b),
            Type::TimeSignature(t) => TypeModel::TimeSignature(t.n, t.dur),
            Type::Error(e) => TypeModel::Error(e.msg@, e.line as int),
            Type::Sound(s) => TypeModel::Sound(s@),
            Type::Note(n) => TypeModel::Note(n.note),
            Type::Octave(o) => TypeModel::Octave(o.octave),
            Type::Duration(d) => TypeModel::Duration(d.dur),
            Type::Chord(c) => TypeModel::Chord(c@),
            Type::Sounds(s) => TypeModel::Sounds(s@),
            Type::Instrument(i) => TypeModel::Instrument(i@),
            Type::Null => TypeModel::Null,
        }
    }
}

impl DeepView for Type {
    type V = TypeModel;

    open spec fn deep_view(&self) -> TypeModel {
        self.view()
    }
}

impl Type {
    /// Whether this value is an error.
    pub open spec fn spec_is_error(&self) -> bool {
        self@ is Error
    }

    /// Whether this value is an error.
    pub fn is_error(&self) -> (r: bool)
        ensures
            r == self.spec_is_error(),
    {
        matches!(self, Type::Error(_))
    }

    /// An equal copy of this value.
    pub fn dup(&self) -> (r: Self)
        ensures
            r@ == self@,
    {
        match self {
            Type::Int(v) => Type::Int(*v),
            Type::String(s) => Type::String(s.clone()),
            Type::Builtin(b) => Type::Builtin(*b),
            Type::TimeSignature(t) => Type::TimeSignature(TimeSignature { n: t.n, dur: t.dur }),
            Type::Error(e) => Type::Error(Error { msg: e.msg.clone(), line: e.line }),
            Type::Sound(s) => Type::Sound(s.dup()),
            Type::Note(n) => Type::Note(Note { note: n.note }),
            Type::Octave(o) => Type::Octave(Octave { octave: o.octave }),
            Type::Duration(d) => Type::Duration(Duration { dur: d.dur }),
            Type::Chord(c) => Type::Chord(c.dup()),
            Type::Sounds(s) => Type::Sounds(dup_sounds_obj(s)),
            Type::Instrument(i) => Type::Instrument(Instrument { ins: dup_synth(&i.ins) }),
            Type::Null => Type::Null,
        }
    }
}

/// An equal copy of a sequence-of-chords value.
pub fn dup_sounds_obj(s: &Sounds) -> (r: Sounds)
    ensures
        r@ == s@,
{
    let mut chords: VecDeque<Chord> = VecDeque::new();
    let n = s.chords.len();
    let mut i: usize = 0;
    while i < n
        invariant
            n == s.chords@.len(),
            i <= n,
            chords@.len() == i,
            forall|j: int| 0 <= j < i ==> chords@[j]@ == s.chords@[j]@,
        decreases n - i,
    {
        let c = (&s.chords[i]).dup();
        chords.push_back(c);
        i = i + 1;
    }
    proof {
        assert forall|j: int| 0 <= j < n implies chords.deep_view()[j]
            == s.chords.deep_view()[j] by {
            assert(chords@[j]@ == s.chords@[j]@);
        }
        assert(chords.deep_view() =~= s.chords.deep_view());
    }
    Sounds { chords }
}

/// An equal copy of a list of playable sounds.
pub fn dup_psounds(v: &Vec<PSound>) -> (r: Vec<PSound>)
    ensures
        r.deep_view() == v.deep_view(),
{
    let mut out: Vec<PSound> = Vec::new();
    let mut i: usize = 0;
    while i < v.len()
        invariant
            i <= v@.len(),
            out@.len() == i,
            forall|j: int| 0 <= j < i ==> out@[j]@ == v@[j]@,
        decreases v@.len() - i,
    {
        let d = (&v[i]).dup();
        out.push(d);
        i = i + 1;
    }
    proof {
        assert forall|j: int| 0 <= j < v@.len() implies out.deep_view()[j]
            == v.deep_view()[j] by {
            assert(out@[j]@ == v@[j]@);
        }
        assert(out.deep_view() =~= v.deep_view());
    }
    out
}

/// An equal copy of an instrument's synth.
pub fn dup_synth(s: &Synth) -> (r: Synth)
    ensures
        r@ == s@,
{
    let mut score: VecDeque<Vec<PSound>> = VecDeque::new();
    let n = s.score.len();
    let mut i: usize = 0;
    while i < n
        invariant
            n == s.score@.len(),
            i <= n,
            score@.len() == i,
            forall|j: int| 0 <= j < i ==> score@[j].deep_view() == s.score@[j].deep_view(),
        decreases n - i,
    {
        let c = dup_psounds(&s.score[i]);
        score.push_back(c);
        i = i + 1;
    }
    let mut cur: Vec<crate::player::instrument::Voice> = Vec::new();
    let m = s.cur.len();
    let mut k: usize = 0;
    while k < m
        invariant
            m == s.cur@.len(),
            k <= m,
            cur@.len() == k,
            forall|j: int| 0 <= j < k ==> cur@[j]@ == s.cur@[j]@,
        decreases m - k,
    {
        let v = (&s.cur[k]).dup();
        cur.push(v);
        k = k + 1;
    }
    let r = Synth {
        score,
        cur,
        first_finished: s.first_finished,
        finished: s.finished,
        opts: s.opts,
    };
    proof {
        assert forall|j: int| 0 <= j < n implies r.score.deep_view()[j]
            == s.score.deep_view()[j] by {
            assert(r.score@[j].deep_view() == s.score@[j].deep_view());
        }
        assert(r.score.deep_view() =~= s.score.deep_view());
        assert forall|j: int| 0 <= j < m implies r.cur.deep_view()[j]
            == s.cur.deep_view()[j] by {
            assert(r.cur@[j]@ == s.cur@[j]@);
        }
        assert(r.cur.deep_view() =~= s.cur.deep_view());
    }
    r
}

/// The name of a pitch, as values print it.
pub open spec fn spec_note_name(n: PNote) -> Seq<char> {
    match n {
        PNote::Space => "Space"@,
        PNote::A => "A"@,
        PNote::ASharp => "ASharp"@,
        PNote::B => "B"@,
        PNote::C => "C"@,
        PNote::CSharp => "CSharp"@,
        PNote::D => "D"@,
        PNote::DSharp => "DSharp"@,
        PNote::E => "E"@,
        PNote::F => "F"@,
        PNote::FSharp => "FSharp"@,
        PNote::G => "G"@,
        PNote::GSharp => "GSharp"@,
    }
}

/// The name of an octave, as values print it.
pub open spec fn spec_octave_name(o: POctave) -> Seq<char> {
    match o {
        POctave::One => "One"@,
        POctave::Two => "Two"@,
        POctave::Three => "Three"@,
        POctave::Four => "Four"@,
        POctave::Five => "Five"@,
        POctave::Six => "Six"@,
        POctave::Seven => "Seven"@,
        POctave::Eight => "Eight"@,
    }
}

/// The name of a duration, as values print it.
pub open spec fn spec_duration_name(d: PDuration) -> Seq<char> {
    match d {
        PDuration::Whole => "Whole"@,
        PDuration::HalfDotted => "HalfDotted"@,
        PDuration::Half => "Half"@,
        PDuration::QuarterDotted => "QuarterDotted"@,
        PDuration::Quarter => "Quarter"@,
        PDuration::EightDotted => "EightDotted"@,
        PDuration::Eight => "Eight"@,
        PDuration::SixteenthDotted => "SixteenthDotted"@,
        PDuration::Sixteenth => "Sixteenth"@,
        PDuration::ThirtySecondDotted => "ThirtySecondDotted"@,
        PDuration::ThirtySecond => "ThirtySecond"@,
    }
}

/// How a playable sound prints: its pitch, octave and duration.
pub open spec fn spec_sound_text(s: SoundModel) -> Seq<char> {
    "Sound("@ + spec_note_name(s.note) + ", "@ + spec_octave_name(s.octave) + ", "@
        + spec_duration_name(s.duration) + ")"@
}

/// How a value prints, for messages and the prompt.
pub open spec fn spec_inspect(m: TypeModel) -> Seq<char> {
    match m {
        TypeModel::Int(v) => crate::interpreter::text::spec_i32_str(v as int),
        TypeModel::String(s) => s,
        TypeModel::Builtin(_) => "builtin function"@,
        TypeModel::TimeSignature(_, _) => "TimeSignature"@,
        TypeModel::Error(msg, _) => "ERROR: "@ + msg,
        TypeModel::Sound(s) => "Note: "@ + spec_sound_text(s.sound),
        TypeModel::Note(n) => "Note: "@ + spec_note_name(n),
        TypeModel::Octave(o) => "Note: "@ + spec_octave_name(o),
        TypeModel::Duration(d) => "Note: "@ + spec_duration_name(d),
        TypeModel::Chord(_) => "Chord"@,
        TypeModel::Sounds(_) => "Sounds"@,
        TypeModel::Instrument(_) => "instrument"@,
        TypeModel::Null => "Null"@,
    }
}

/// The name of a pitch.
pub fn note_name(n: &PNote) -> (r: String)
    ensures
        r@ == spec_note_name(*n),
{
    match n {
        PNote::Space => String::from_str("Space"),
        PNote::A => String::from_str("A"),
        PNote::ASharp => String::from_str("ASharp"),
        PNote::B => String::from_str("B"),
        PNote::C => String::from_str("C"),
        PNote::CSharp => String::from_str("CSharp"),
        PNote::D => String::from_str("D"),
        PNote::DSharp => String::from_str("DSharp"),
        PNote::E => String::from_str("E"),
        PNote::F => String::from_str("F"),
        PNote::FSharp => String::from_str("FSharp"),
        PNote::G => String::from_str("G"),
        PNote::GSharp => String::from_str("GSharp"),
    }
}

/// The name of an octave.
pub fn octave_name(o: &POctave) -> (r: String)
    ensures
        r@ == spec_octave_name(*o),
{
    match o {
        POctave::One => String::from_str("One"),
        POctave::Two => String::from_str("Two"),
        POctave::Three => String::from_str("Three"),
        POctave::Four => String::from_str("Four"),
        POctave::Five => String::from_str("Five"),
        POctave::Six => String::from_str("Six"),
        POctave::Seven => String::from_str("Seven"),
        POctave::Eight => String::from_str("Eight"),
    }
}

/// The name of a duration.
pub fn duration_name(d: &PDuration) -> (r: String)
    ensures
        r@ == spec_duration_name(*d),
{
    match d {
        PDuration::Whole => String::from_str("Whole"),
        PDuration::HalfDotted => String::from_str("HalfDotted"),
        PDuration::Half => String::from_str("Half"),
        PDuration::QuarterDotted => String::from_str("QuarterDotted"),
        PDuration::Quarter => String::from_str("Quarter"),
        PDuration::EightDotted => String::from_str("EightDotted"),
        PDuration::Eight => String::from_str("Eight"),
        PDuration::SixteenthDotted => String::from_str("SixteenthDotted"),
        PDuration::Sixteenth => String::from_str("Sixteenth"),
        PDuration::ThirtySecondDotted => String::from_str("ThirtySecondDotted"),
        PDuration::ThirtySecond => String::from_str("ThirtySecond"),
    }
}

impl Type {
    /// How this value prints, for messages and the prompt.
    pub fn inspect(&self) -> (r: String)
        ensures
            r@ == spec_inspect(self@),
    {
        match self {
            Type::Int(v) => crate::interpreter::text::i32_to_string(*v),
            Type::String(s) => s.clone(),
            Type::Builtin(_) => String::from_str("builtin function"),
            Type::TimeSignature(_) => String::from_str("TimeSignature"),
            Type::Error(e) => {
                let mut s = String::from_str("ERROR: ");
                s.append(e.msg.as_str());
                s
            }
            Type::Sound(so) => {
                let mut s = String::from_str("Note: ");
                let t = sound_text(&so.sound);
                s.append(t.as_str());
                proof {
                    assert(s@ =~= "Note: "@ + spec_sound_text(so.sound@));
                }
                s
            }
            Type::Note(n) => {
                let mut s = String::from_str("Note: ");
                let t = note_name(&n.note);
                s.append(t.as_str());
                s
            }
            Type::Octave(o) => {
                let mut s = String::from_str("Note: ");
                let t = octave_name(&o.octave);
                s.append(t.as_str());
                s
            }
            Type::Duration(d) => {
                let mut s = String::from_str("Note: ");
                let t = duration_name(&d.dur);
                s.append(t.as_str());
                s
            }
            Type::Chord(_) => String::from_str("Chord"),
            Type::Sounds(_) => String::from_str("Sounds"),
            Type::Instrument(_) => String::from_str("instrument"),
            Type::Null => String::from_str("Null"),
        }
    }
}

/// How a playable sound prints.
pub fn sound_text(s: &PSound) -> (r: String)
    ensures
        r@ == spec_sound_text(s@),
{
    let mut out = String::from_str("Sound(");
    let n = note_name(&s.note);
    out.append(n.as_str());
    out.append(", ");
    let o = octave_name(&s.octave);
    out.append(o.as_str());
    out.append(", ");
    let d = duration_name(&s.duration);
    out.append(d.as_str());
    out.append(")");
    proof {
        assert(out@ =~= spec_sound_text(s@));
    }
    out
}

/// The bindings an environment can see: its own map, and the one of the
/// enclosing scope where there is one.
pub struct EnvModel {
    pub own: Map<Seq<char>, TypeModel>,
    pub outer: Option<Map<Seq<char>, TypeModel>>,
}

/// The map spelled by a binding list, later bindings winning.
pub open spec fn spec_assoc_map(s: Seq<(String, Type)>) -> Map<Seq<char>, TypeModel>
    decreases s.len(),
{
    if s.len() == 0 {
        Map::empty()
    } else {
        spec_assoc_map(s.drop_last()).insert(s.last().0@, s.last().1@)
    }
}

/// The variable environment: the bindings of this scope, and optionally
/// the scope it encloses.
#[derive(Debug)]
pub struct Env {
    pub store: Vec<(String, Type)>,
    pub outer: Option<Box<Env>>,
}

impl View for Env {
    type V = EnvModel;

    open spec fn view(&self) -> EnvModel {
        EnvModel {
            own: spec_assoc_map(self.store@),
            outer: match &self.outer {
                Some(o) => Some(spec_assoc_map(o.store@)),
                None => None,
            },
        }
    }
}

/// What looking `name` up in an environment yields: the binding of this
/// scope, else the enclosing scope's own binding, else nothing.
pub open spec fn spec_env_lookup(m: EnvModel, name: Seq<char>) -> Option<TypeModel> {
    if m.own.contains_key(name) {
        Some(m.own[name])
    } else {
        match m.outer {
            Some(o) => if o.contains_key(name) {
                Some(o[name])
            } else {
                None
            },
            None => None,
        }
    }
}

impl Env {
    /// An empty environment.
    pub fn new() -> (r: Self)
        ensures
            r@.own == Map::<Seq<char>, TypeModel>::empty(),
            r@.outer is None,
    {
        Self { store: Vec::new(), outer: None }
    }

    /// An empty environment enclosing `outer`.
    pub fn new_enclosed(outer: Env) -> (r: Self)
        ensures
            r@.own == Map::<Seq<char>, TypeModel>::empty(),
            r@.outer == Some(outer@.own),
    {
        Self { store: Vec::new(), outer: Some(Box::new(outer)) }
    }

    /// Bind `name` to `obj`, shadowing any earlier binding.
    pub fn set(&mut self, name: String, obj: Type)
        ensures
            final(self)@.own == old(self)@.own.insert(name@, obj@),
            final(self)@.outer == old(self)@.outer,
    {
        let ghost namev = name@;
        let ghost objv = obj@;
        let ghost pre = self.store@;
        self.store.push((name, obj));
        proof {
            assert(self.store@.drop_last() =~= pre);
            assert(self.store@.last().0@ == namev);
            assert(self.store@.last().1@ == objv);
        }
    }

    /// Look `name` up: this scope's binding, else the enclosing scope's.
    pub fn get(&self, name: &str) -> (r: Option<Type>)
        ensures
            match spec_env_lookup(self@, name@) {
                Some(m) => r matches Some(v) && v@ == m,
                None => r is None,
            },
    {
        match lookup_store(&self.store, name) {
            Some(v) => Some(v),
            None => {
                match &self.outer {
                    Some(o) => lookup_store(&o.store, name),
                    None => None,
                }
            }
        }
    }
}

/// Find the winning binding of `name` in a binding list.
fn lookup_store(store: &Vec<(String, Type)>, name: &str) -> (r: Option<Type>)
    ensures
        match r {
            Some(v) => spec_assoc_map(store@).contains_key(name@) && v@ == spec_assoc_map(
                store@)[name@],
            None => !spec_assoc_map(store@).contains_key(name@),
        },
{
    let mut i: usize = store.len();
    proof {
        assert(store@.subrange(0, store@.len() as int) =~= store@);
    }
    while i > 0
        invariant
            i <= store@.len(),
            spec_assoc_map(store@).contains_key(name@) ==> spec_assoc_map(store@.subrange(0,
                i as int)).contains_key(name@),
            spec_assoc_map(store@.subrange(0, i as int)).contains_key(name@)
                ==> spec_assoc_map(store@).contains_key(name@) && spec_assoc_map(
                store@.subrange(0, i as int))[name@] == spec_assoc_map(store@)[name@],
        decreases i,
    {
        i = i - 1;
        proof {
            assert(store@.subrange(0, i + 1).drop_last() =~= store@.subrange(0, i as int));
            assert(store@.subrange(0, i + 1).last() == store@[i as int]);
        }
        let pair = &store[i];
        if crate::interpreter::text::str_eq(pair.0.as_str(), name) {
            let v = (&pair.1).dup();
            return Some(v);
        }
    }
    proof {
        assert(store@.subrange(0, 0).len() == 0);
        assert(!spec_assoc_map(store@.subrange(0, 0)).contains_key(name@));
    }
    None
}

} // verus!
