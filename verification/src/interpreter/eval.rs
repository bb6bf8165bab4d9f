//! The evaluator: walks the syntax tree and produces runtime values.
//!
//! Identifiers resolve through the environment, then the built-in table,
//! and finally — when the name is written `<pitch>_<octave>_<duration>` —
//! through the note grammar (`spec_eval_ident` states the whole rule).
//! `+` stacks sounds and chords into chords, defaulting a bare pitch's
//! octave and duration from the last sound that spelled its own.  Errors
//! are values; they propagate outward and never stop the evaluator.

use vstd::prelude::*;
use vstd::string::StringExecFns;

use crate::interpreter::ast::{
    AssignStatement, CallExpression, Identifier, InfixExpression, NodeType, PrefixExpression,
};
use crate::interpreter::builtin::{
    builtin_of, builtin_play, builtin_tempo, builtin_track, builtin_vibrato, spec_apply_play,
    spec_apply_tempo, spec_apply_track, spec_apply_vib, spec_builtin_of, spec_played,
    EvalState,
};
use crate::interpreter::object::{
    spec_env_lookup, spec_inspect, Builtin, Chord, Env, EnvModel, Error, Note, Sound,
    SoundObjModel, Type, TypeModel,
};
use crate::interpreter::text::{char_to_string, spec_i32_str, str_eq};
use crate::player::sound::{Note as PNote, SoundModel};

verus! {

/// An error value with its message and source line.
pub fn new_error(msg: String, line: usize) -> (r: Type)
    ensures
        r@ == TypeModel::Error(msg@, line as int),
{
    Type::Error(Error { msg, line })
}

/// The first position of `c` in `s`, or the length when absent.
pub open spec fn spec_find_char(s: Seq<char>, c: char) -> int
    decreases s.len(),
{
    if s.len() == 0 {
        0
    } else if s[0] == c {
        0
    } else {
        1 + spec_find_char(s.drop_first(), c)
    }
}

/// Bounds of the first position: within the string, on `c` when inside it,
/// with no earlier `c`.
pub proof fn lemma_find_char_bounds(s: Seq<char>, c: char)
    ensures
        0 <= spec_find_char(s, c) <= s.len(),
        spec_find_char(s, c) < s.len() ==> s[spec_find_char(s, c)] == c,
        forall|j: int| 0 <= j < spec_find_char(s, c) ==> s[j] != c,
    decreases s.len(),
{
    if s.len() > 0 && s[0] != c {
        lemma_find_char_bounds(s.drop_first(), c);
        assert(forall|j: int| 0 <= j < s.len() - 1 ==> s.drop_first()[j] == s[j + 1]);
        assert forall|j: int| 0 <= j < spec_find_char(s, c) implies s[j] != c by {
            if j > 0 {
                assert(s.drop_first()[j - 1] == s[j]);
                assert(j - 1 < spec_find_char(s.drop_first(), c));
            }
        }
    }
}

/// The segments of `s` split at `c`: at least one, never containing `c`.
pub open spec fn spec_segments(s: Seq<char>, c: char) -> Seq<Seq<char>>
    decreases s.len(),
    via spec_segments_dec
{
    let i = spec_find_char(s, c);
    if i == s.len() {
        seq![s]
    } else {
        seq![s.take(i)] + spec_segments(s.skip(i + 1), c)
    }
}

#[via_fn]
proof fn spec_segments_dec(s: Seq<char>, c: char) {
    lemma_find_char_bounds(s, c);
}

/// Splitting yields at least one segment, and none contains the separator.
pub proof fn lemma_segments_shape(s: Seq<char>, c: char)
    ensures
        spec_segments(s, c).len() >= 1,
        forall|k: int, j: int| 0 <= k < spec_segments(s, c).len() && 0 <= j < spec_segments(s,
            c)[k].len() ==> spec_segments(s, c)[k][j] != c,
    decreases s.len(),
{
    lemma_find_char_bounds(s, c);
    let i = spec_find_char(s, c);
    if i == s.len() {
    } else {
        lemma_segments_shape(s.skip(i + 1), c);
        assert forall|k: int, j: int| 0 <= k < spec_segments(s, c).len() && 0 <= j
            < spec_segments(s, c)[k].len() implies spec_segments(s, c)[k][j] != c by {
            if k == 0 {
                assert(spec_segments(s, c)[0] == s.take(i));
                assert(s.take(i)[j] == s[j]);
            } else {
                assert(spec_segments(s, c)[k] == spec_segments(s.skip(i + 1), c)[k - 1]);
            }
        }
    }
}

/// How many times `c` occurs in `s`.
pub open spec fn spec_count_char(s: Seq<char>, c: char) -> int
    decreases s.len(),
{
    if s.len() == 0 {
        0
    } else {
        spec_count_char(s.drop_first(), c) + if s[0] == c { 1int } else { 0int }
    }
}

/// A string holds `c` exactly when its count of `c` is positive.
pub proof fn lemma_count_char_occurs(s: Seq<char>, c: char)
    ensures
        spec_count_char(s, c) >= 0,
        (spec_find_char(s, c) < s.len()) <==> spec_count_char(s, c) > 0,
    decreases s.len(),
{
    if s.len() > 0 {
        lemma_count_char_occurs(s.drop_first(), c);
        lemma_find_char_bounds(s.drop_first(), c);
    }
}

/// The message for an unbound name.
pub open spec fn spec_not_found_msg(name: Seq<char>) -> Seq<char> {
    "not found: `"@ + name + "`"@
}

/// A plain name's value: its binding, else the built-in of that name, else
/// a not-found error.  (The note grammar does not apply here; this is how
/// the pieces of a note name resolve.)
pub open spec fn spec_eval_base(env: EnvModel, name: Seq<char>, line: int) -> TypeModel {
    match spec_env_lookup(env, name) {
        Some(v) => v,
        None => match spec_builtin_of(name) {
            Some(b) => TypeModel::Builtin(b),
            None => TypeModel::Error(spec_not_found_msg(name), line),
        },
    }
}

/// The value of a note name `<pitch>_<octave>_<duration>`: each
/// piece resolves as its own identifier — the pitch as written, the octave
/// as `o<digit>`, the duration as `d<digits>` — and a rest takes octave
/// four and reads its duration from the piece after the pitch.
pub open spec fn spec_eval_note_ident(env: EnvModel, value: Seq<char>, line: int) -> TypeModel {
    let segs = spec_segments(value, '_');
    match spec_eval_base(env, segs[0], line) {
        TypeModel::Note(note) => {
            let oct_seg: Option<Seq<char>> = if note is Space {
                Some("4"@)
            } else if segs.len() >= 2 {
                Some(segs[1])
            } else {
                None
            };
            match oct_seg {
                None => TypeModel::Note(note),
                Some(oseg) => match spec_eval_base(env, seq!['o'] + oseg, line) {
                    TypeModel::Octave(oct) => {
                        let di: int = if note is Space { 1 } else { 2 };
                        if segs.len() > di {
                            match spec_eval_base(env, seq!['d'] + segs[di], line) {
                                TypeModel::Duration(dur) => TypeModel::Sound(SoundObjModel {
                                    sound: SoundModel {
                                        note,
                                        octave: oct,
                                        duration: dur,
                                        effects: None,
                                    },
                                    modified: false,
                                }),
                                other => TypeModel::Error("invalid note duration `"@
                                    + spec_inspect(other) + "`"@, line),
                            }
                        } else {
                            TypeModel::Error("missing note duration"@, line)
                        }
                    }
                    _ => TypeModel::Error("invalid note arg 2 octave"@, line),
                },
            }
        }
        other => TypeModel::Error(spec_inspect(other), line),
    }
}

/// An identifier's value: its binding, else the built-in of its name, else
/// — when the name is written with underscores — a note name, else a
/// not-found error.
pub open spec fn spec_eval_ident(env: EnvModel, value: Seq<char>, line: int) -> TypeModel {
    match spec_env_lookup(env, value) {
        Some(v) => v,
        None => match spec_builtin_of(value) {
            Some(b) => TypeModel::Builtin(b),
            None => if spec_find_char(value, '_') < value.len() {
                spec_eval_note_ident(env, value, line)
            } else {
                TypeModel::Error(spec_not_found_msg(value), line)
            },
        },
    }
}

/// On a name without underscores the identifier rule is the plain rule.
pub proof fn lemma_eval_ident_base(env: EnvModel, value: Seq<char>, line: int)
    requires
        spec_find_char(value, '_') == value.len(),
    ensures
        spec_eval_ident(env, value, line) == spec_eval_base(env, value, line),
{
}

/// A string without an occurrence counts zero occurrences.
pub proof fn lemma_no_occurrence_count_zero(s: Seq<char>, c: char)
    requires
        forall|j: int| 0 <= j < s.len() ==> s[j] != c,
    ensures
        spec_count_char(s, c) == 0,
    decreases s.len(),
{
    if s.len() > 0 {
        assert(forall|j: int| 0 <= j < s.len() - 1 ==> s.drop_first()[j] == s[j + 1]);
        lemma_no_occurrence_count_zero(s.drop_first(), c);
    }
}

/// Resolve a name: the environment, then the built-ins, then the
/// note grammar for names written with underscores.
pub fn eval_name(env: &Env, name: &str, line: usize) -> (r: Type)
    ensures
        r@ == spec_eval_ident(env@, name@, line as int),
    decreases spec_count_char(name@, '_'), 1int,
{
    proof {
        lemma_count_char_occurs(name@, '_');
    }
    match env.get(name) {
        Some(val) => {
            return val;
        }
        None => {}
    }
    match builtin_of(name) {
        Some(b) => {
            return Type::Builtin(b);
        }
        None => {}
    }
    let upos = find_in_str(name, '_');
    let n = name.unicode_len();
    if upos < n {
        eval_note_name(env, name, line)
    } else {
        let mut msg = String::from_str("not found: `");
        msg.append(name);
        msg.append("`");
        proof {
            assert(msg@ =~= spec_not_found_msg(name@));
        }
        new_error(msg, line)
    }
}

/// Resolve a note name `<pitch>_<octave>_<duration>`: each piece as
/// its own identifier, the octave spelled `o<digit>`, the duration
/// `d<digits>`; a rest takes octave four.
fn eval_note_name(env: &Env, name: &str, line: usize) -> (r: Type)
    requires
        spec_find_char(name@, '_') < name@.len(),
    ensures
        r@ == spec_eval_note_ident(env@, name@, line as int),
    decreases spec_count_char(name@, '_'), 0int,
{
    proof {
        lemma_count_char_occurs(name@, '_');
        lemma_segments_shape(name@, '_');
    }
    let segs = split_by(name, '_');
    let ghost segsv = spec_segments(name@, '_');
    proof {
        assert(segs.deep_view().len() == segsv.len());
        assert(segs@[0]@ == segsv[0]);
        assert forall|j: int| 0 <= j < segsv[0].len() implies segsv[0][j] != '_' by {}
        lemma_no_occurrence_count_zero(segsv[0], '_');
        lemma_find_char_no_occurrence(segsv[0], '_');
    }
    let n_val = eval_name(env, segs[0].as_str(), line);
    proof {
        lemma_eval_ident_base(env@, segsv[0], line as int);
    }
    let noteobj = match n_val {
        Type::Note(noteobj) => noteobj,
        other => {
            let ins = other.inspect();
            return new_error(ins, line);
        }
    };
    let note = noteobj.note;
    let is_space = matches!(note, PNote::Space);
    let oct_seg: Option<String> = if is_space {
        Some(String::from_str("4"))
    } else if segs.len() >= 2 {
        Some((&segs[1]).clone())
    } else {
        None
    };
    let oseg = match oct_seg {
        Some(o) => o,
        None => {
            return Type::Note(Note { note });
        }
    };
    let mut oname = char_to_string('o');
    oname.append(oseg.as_str());
    proof {
        if !is_space {
            assert(oseg@ == segsv[1]);
            assert(forall|j: int| 0 <= j < segsv[1].len() ==> segsv[1][j] != '_');
        } else {
            reveal_strlit("4");
            assert(oseg@.len() == 1 && oseg@[0] == '4');
        }
        assert forall|j: int| 0 <= j < oname@.len() implies oname@[j] != '_' by {
            if j > 0 {
                assert(oname@[j] == oseg@[j - 1]);
            }
        }
        lemma_no_occurrence_count_zero(oname@, '_');
        lemma_find_char_no_occurrence(oname@, '_');
    }
    let o_val = eval_name(env, oname.as_str(), line);
    proof {
        lemma_eval_ident_base(env@, oname@, line as int);
    }
    let oct = match o_val {
        Type::Octave(o) => o.octave,
        _ => {
            return new_error(String::from_str("invalid note arg 2 octave"), line);
        }
    };
    let di: usize = if is_space { 1 } else { 2 };
    if segs.len() <= di {
        return new_error(String::from_str("missing note duration"), line);
    }
    let mut dname = char_to_string('d');
    dname.append((&segs[di]).as_str());
    proof {
        assert(segs@[di as int]@ == segsv[di as int]);
        assert(forall|j: int| 0 <= j < segsv[di as int].len() ==> segsv[di as int][j] != '_');
        assert forall|j: int| 0 <= j < dname@.len() implies dname@[j] != '_' by {
            if j > 0 {
                assert(dname@[j] == segsv[di as int][j - 1]);
            }
        }
        lemma_no_occurrence_count_zero(dname@, '_');
        lemma_find_char_no_occurrence(dname@, '_');
    }
    let d_val = eval_name(env, dname.as_str(), line);
    proof {
        lemma_eval_ident_base(env@, dname@, line as int);
    }
    match d_val {
        Type::Duration(d) => Type::Sound(Sound {
            sound: crate::player::sound::Sound {
                note,
                octave: oct,
                duration: d.dur,
                effects: None,
            },
            modified: false,
        }),
        other => {
            let ins = other.inspect();
            let mut msg = String::from_str("invalid note duration `");
            msg.append(ins.as_str());
            msg.append("`");
            proof {
                assert(msg@ =~= "invalid note duration `"@ + ins@ + "`"@);
            }
            new_error(msg, line)
        }
    }
}

/// A string with no occurrence has its first occurrence at the end.
pub proof fn lemma_find_char_no_occurrence(s: Seq<char>, c: char)
    requires
        forall|j: int| 0 <= j < s.len() ==> s[j] != c,
    ensures
        spec_find_char(s, c) == s.len(),
{
    lemma_find_char_at(s, c, s.len() as int);
}

/// Resolve an identifier node.
pub fn eval_ident(ident: &Identifier, env: &Env) -> (r: Type)
    ensures
        r@ == spec_eval_ident(env@, ident.value@, ident.token.line as int),
{
    eval_name(env, ident.value.as_str(), ident.token.line)
}

/// The first position of `c` in `s`.
pub fn find_in_str(s: &str, c: char) -> (r: usize)
    ensures
        r == spec_find_char(s@, c),
{
    let n = s.unicode_len();
    let mut i: usize = 0;
    while i < n
        invariant
            n == s@.len(),
            i <= n,
            forall|j: int| 0 <= j < i ==> s@[j] != c,
        decreases n - i,
    {
        if s.get_char(i) == c {
            proof {
                lemma_find_char_at(s@, c, i as int);
            }
            return i;
        }
        i = i + 1;
    }
    proof {
        lemma_find_char_at(s@, c, n as int);
    }
    n
}

/// The first position of `c` is the first position that holds it.
pub proof fn lemma_find_char_at(s: Seq<char>, c: char, i: int)
    requires
        0 <= i <= s.len(),
        forall|j: int| 0 <= j < i ==> s[j] != c,
        i < s.len() ==> s[i] == c,
    ensures
        spec_find_char(s, c) == i,
    decreases i,
{
    lemma_find_char_bounds(s, c);
    if i > 0 {
        assert(forall|j: int| 0 <= j < s.len() - 1 ==> s.drop_first()[j] == s[j + 1]);
        lemma_find_char_at(s.drop_first(), c, i - 1);
    }
}

/// The segments of `s` split at `c`.
pub fn split_by(s: &str, c: char) -> (r: Vec<String>)
    ensures
        r.deep_view() == spec_segments(s@, c),
    decreases s@.len(),
{
    let n = s.unicode_len();
    let i = find_in_str(s, c);
    proof {
        lemma_find_char_bounds(s@, c);
    }
    if i == n {
        let mut v: Vec<String> = Vec::new();
        v.push(String::from_str(s));
        proof {
            assert(v.deep_view() =~= spec_segments(s@, c));
        }
        v
    } else {
        let head = String::from_str(s.substring_char(0, i));
        let ghost headv = head@;
        let rest = s.substring_char(i + 1, n);
        let mut v = split_by(rest, c);
        let ghost pre = v.deep_view();
        let ghost prevec = v@;
        let ghost headg = head;
        v.insert(0, head);
        proof {
            assert(s@.subrange(0, i as int) =~= s@.take(i as int));
            assert(rest@ =~= s@.skip(i + 1));
            assert(v@ == prevec.insert(0, headg));
            assert forall|k: int| 0 <= k < v.deep_view().len() implies v.deep_view()[k]
                == spec_segments(s@, c)[k] by {
                if k == 0 {
                    assert(v@[0]@ == headv);
                    assert(spec_segments(s@, c)[0] == s@.take(i as int));
                } else {
                    assert(v@[k] == prevec[k - 1]);
                    assert(v@[k]@ == pre[k - 1]);
                    assert(spec_segments(s@, c)[k] == spec_segments(s@.skip(i + 1), c)[k
                        - 1]);
                }
            }
            assert(v.deep_view() =~= spec_segments(s@, c));
        }
        v
    }
}

/// The message rejecting an integer operator.
pub open spec fn spec_unknown_int_op_msg(op: Seq<char>, l: i32, r: i32) -> Seq<char> {
    "unknown operator: op: '"@ + op + "'  left: '"@ + spec_i32_str(l as int) + "'  right: '"@
        + spec_i32_str(r as int) + "'"@
}

/// Combining two integers: wrap-around `+`, `-` and `*`; `/` truncating,
/// a zero divisor rejected and the one overflowing quotient wrapped; any
/// other operator rejected.
pub open spec fn spec_combine_ints(op: Seq<char>, l: i32, r: i32, line: int) -> TypeModel {
    if op == "+"@ {
        TypeModel::Int(vstd::wrapping::i32_specs::wrapping_add(l, r))
    } else if op == "-"@ {
        TypeModel::Int(vstd::wrapping::i32_specs::wrapping_sub(l, r))
    } else if op == "*"@ {
        TypeModel::Int(vstd::wrapping::i32_specs::wrapping_mul(l, r))
    } else if op == "/"@ {
        if r == 0 {
            TypeModel::Error("division by zero"@, line)
        } else {
            match l.checked_div(r) {
                Some(q) => TypeModel::Int(q),
                None => TypeModel::Int(i32::MIN),
            }
        }
    } else {
        TypeModel::Error(spec_unknown_int_op_msg(op, l, r), line)
    }
}

/// Combining two sounds: `+` stacks them into a chord.
pub open spec fn spec_combine_sounds(op: Seq<char>, l: SoundObjModel, r: SoundObjModel,
    line: int) -> TypeModel {
    if op == "+"@ {
        TypeModel::Chord(seq![l, r])
    } else {
        TypeModel::Error(spec_unknown_sound_op_msg(op, TypeModel::Sound(l),
            TypeModel::Sound(r)), line)
    }
}

/// Combining two chords: `+` stacks all their sounds.
pub open spec fn spec_combine_chords(op: Seq<char>, l: Seq<SoundObjModel>,
    r: Seq<SoundObjModel>, line: int) -> TypeModel {
    if op == "+"@ {
        TypeModel::Chord(l + r)
    } else {
        TypeModel::Error(spec_unknown_sound_op_msg(op, TypeModel::Chord(l),
            TypeModel::Chord(r)), line)
    }
}

/// Combining a chord with a bare pitch: `+` appends the pitch with the
/// octave and duration of the chord's last sound that spelled its own,
/// marked as inherited; a chord with no such sound rejects it.
pub open spec fn spec_combine_chord_note(op: Seq<char>, l: Seq<SoundObjModel>, n: PNote,
    line: int) -> TypeModel {
    if op == "+"@ {
        match spec_last_unmodified(l) {
            Some(donor) => TypeModel::Chord(l.push(SoundObjModel {
                sound: SoundModel {
                    note: n,
                    octave: donor.sound.octave,
                    duration: donor.sound.duration,
                    effects: None,
                },
                modified: true,
            })),
            None => TypeModel::Error(spec_unknown_sound_op_msg(op, TypeModel::Chord(l),
                TypeModel::Note(n)), line),
        }
    } else {
        TypeModel::Error(spec_unknown_sound_op_msg(op, TypeModel::Chord(l),
            TypeModel::Note(n)), line)
    }
}

/// The message rejecting an operand pair no operator combines.
pub open spec fn spec_unknown_operands_msg(l: TypeModel, r: TypeModel) -> Seq<char> {
    "unknown operands for plus: left - "@ + spec_inspect(l) + "  right - "@ + spec_inspect(r)
}

/// The whole operand-dispatch table of a binary operator: integers get
/// their arithmetic; a sound, chord or bare pitch on either side of `+`
/// stacks into a chord (a lone sound counting as a chord of one); every
/// other pairing is rejected.
pub open spec fn spec_combine(l: TypeModel, r: TypeModel, op: Seq<char>, line: int)
    -> TypeModel {
    match (l, r) {
        (TypeModel::Int(a), TypeModel::Int(b)) => spec_combine_ints(op, a, b, line),
        (TypeModel::Sound(a), TypeModel::Sound(b)) => spec_combine_sounds(op, a, b, line),
        (TypeModel::Chord(a), TypeModel::Sound(b)) => spec_combine_chords(op, a, seq![b],
            line),
        (TypeModel::Chord(a), TypeModel::Chord(b)) => spec_combine_chords(op, a, b, line),
        (TypeModel::Sound(a), TypeModel::Chord(b)) => spec_combine_chords(op, seq![a], b,
            line),
        (TypeModel::Sound(a), TypeModel::Note(n)) => spec_combine_chord_note(op, seq![a], n,
            line),
        (TypeModel::Chord(a), TypeModel::Note(n)) => spec_combine_chord_note(op, a, n, line),
        _ => TypeModel::Error(spec_unknown_operands_msg(l, r), line),
    }
}

/// Apply an integer operator (with two's-complement wrap-around): `+`,
/// `-`, `*` and `/`, a zero divisor rejected.
pub fn eval_int_infix_expr(op: &str, left: i32, right: i32, line: usize) -> (r: Type)
    ensures
        r@ == spec_combine_ints(op@, left, right, line as int),
{
    if str_eq(op, "+") {
        return Type::Int(left.wrapping_add(right));
    }
    if str_eq(op, "-") {
        return Type::Int(left.wrapping_sub(right));
    }
    if str_eq(op, "*") {
        return Type::Int(left.wrapping_mul(right));
    }
    if str_eq(op, "/") {
        if right == 0 {
            return new_error(String::from_str("division by zero"), line);
        }
        return match left.checked_div(right) {
            Some(q) => Type::Int(q),
            None => Type::Int(i32::MIN),
        };
    }
    let mut msg = String::from_str("unknown operator: op: '");
    msg.append(op);
    msg.append("'  left: '");
    let ls = crate::interpreter::text::i32_to_string(left);
    msg.append(ls.as_str());
    msg.append("'  right: '");
    let rs = crate::interpreter::text::i32_to_string(right);
    msg.append(rs.as_str());
    msg.append("'");
    proof {
        assert(msg@ =~= spec_unknown_int_op_msg(op@, left, right));
    }
    new_error(msg, line)
}

/// The message rejecting a sound-level operator.
pub open spec fn spec_unknown_sound_op_msg(op: Seq<char>, l: TypeModel, r: TypeModel)
    -> Seq<char> {
    "unknown operator: op: '"@ + op + "'  left: "@ + spec_inspect(l) + "  right: "@
        + spec_inspect(r)
}

/// Stack two sounds into a chord: `sound + sound`.
pub fn eval_sound_infix_expr(op: &str, left: Sound, right: Sound, line: usize) -> (r: Type)
    ensures
        r@ == spec_combine_sounds(op@, left@, right@, line as int),
{
    if str_eq(op, "+") {
        let mut sounds: Vec<Sound> = Vec::new();
        sounds.push(left);
        sounds.push(right);
        let c = Chord::new(sounds);
        proof {
            assert(c@ =~= seq![left@, right@]);
        }
        return Type::Chord(c);
    }
    let lt = Type::Sound(left);
    let rt = Type::Sound(right);
    let li = lt.inspect();
    let ri = rt.inspect();
    let mut msg = String::from_str("unknown operator: op: '");
    msg.append(op);
    msg.append("'  left: ");
    msg.append(li.as_str());
    msg.append("  right: ");
    msg.append(ri.as_str());
    proof {
        assert(msg@ =~= spec_unknown_sound_op_msg(op@, lt@, rt@));
    }
    new_error(msg, line)
}

/// Join two chords: `chord + chord` stacks all their sounds.
pub fn eval_chord_infix_expr(op: &str, left: Chord, right: Chord, line: usize) -> (r: Type)
    ensures
        r@ == spec_combine_chords(op@, left@, right@, line as int),
{
    if str_eq(op, "+") {
        let ghost lv = left@;
        let ghost rv = right@;
        let mut sounds = left.get_sounds();
        let mut rs = right.get_sounds();
        let ghost sv = sounds;
        let ghost rg = rs;
        sounds.append(&mut rs);
        let c = Chord::new(sounds);
        proof {
            assert forall|j: int| 0 <= j < lv.len() + rv.len() implies c@[j] == (lv + rv)[j]
                by {
                if j < lv.len() {
                    assert(sounds@[j] == sv@[j]);
                } else {
                    assert(sounds@[j] == rg@[j - lv.len()]);
                }
            }
            assert(c@ =~= lv + rv);
        }
        return Type::Chord(c);
    }
    let lt = Type::Chord(left);
    let rt = Type::Chord(right);
    let li = lt.inspect();
    let ri = rt.inspect();
    let mut msg = String::from_str("unknown operator: op: '");
    msg.append(op);
    msg.append("'  left: ");
    msg.append(li.as_str());
    msg.append("  right: ");
    msg.append(ri.as_str());
    proof {
        assert(msg@ =~= spec_unknown_sound_op_msg(op@, lt@, rt@));
    }
    new_error(msg, line)
}

/// The last sound of a chord whose octave and duration were written out —
/// the one a bare pitch inherits from.
pub open spec fn spec_last_unmodified(sounds: Seq<SoundObjModel>) -> Option<SoundObjModel>
    decreases sounds.len(),
{
    if sounds.len() == 0 {
        None
    } else if !sounds.last().modified {
        Some(sounds.last())
    } else {
        spec_last_unmodified(sounds.drop_last())
    }
}

/// Scanning for the donor sound can ignore a modified tail.
proof fn lemma_last_unmodified_prefix(sounds: Seq<SoundObjModel>, i: int)
    requires
        0 <= i <= sounds.len(),
        forall|j: int| i <= j < sounds.len() ==> (#[trigger] sounds[j]).modified,
    ensures
        spec_last_unmodified(sounds) == spec_last_unmodified(sounds.take(i)),
    decreases sounds.len() - i,
{
    if i < sounds.len() {
        lemma_last_unmodified_prefix(sounds, i + 1);
        assert(sounds.take(i + 1).drop_last() =~= sounds.take(i));
        assert(sounds.take(i + 1).last() == sounds[i]);
    } else {
        assert(sounds.take(i) =~= sounds);
    }
}

/// Append a bare pitch to a chord: it inherits the octave and
/// duration of the last sound that spelled its own, and is marked as
/// having done so; a chord with no such sound rejects it.
pub fn eval_note_infix_expr(op: &str, left: Chord, right: Note, line: usize) -> (r: Type)
    ensures
        r@ == spec_combine_chord_note(op@, left@, right.note, line as int),
{
    let ghost lv = left@;
    let ghost rn = right.note;
    let ghost ln = line;
    if str_eq(op, "+") {
        let mut sounds = left.get_sounds();
        let mut i: usize = sounds.len();
        proof {
            assert(lv.take(sounds@.len() as int) =~= lv);
        }
        while i > 0
            invariant
                op@ == "+"@,
                left@ == lv,
                right.note == rn,
                line == ln,
                sounds.deep_view() == lv,
                i <= sounds@.len(),
                forall|j: int| i <= j < lv.len() ==> (#[trigger] lv[j]).modified,
            decreases i,
        {
            i = i - 1;
            let donor = &sounds[i];
            if !donor.modified {
                proof {
                    lemma_last_unmodified_prefix(lv, i + 1);
                    assert(lv.take(i + 1).last() == lv[i as int]);
                    assert(spec_last_unmodified(lv) == Some(lv[i as int]));
                }
                let oct = donor.sound.octave;
                let dur = donor.sound.duration;
                let added = Sound {
                    sound: crate::player::sound::Sound {
                        note: right.note,
                        octave: oct,
                        duration: dur,
                        effects: None,
                    },
                    modified: true,
                };
                let ghost pre = sounds;
                let ghost ag = added;
                sounds.push(added);
                proof {
                    crate::views::lemma_vec_deep_view_push(pre, sounds, ag);
                }
                let c = Chord::new(sounds);
                return Type::Chord(c);
            }
        }
        proof {
            lemma_last_unmodified_prefix(lv, 0);
            assert(lv.take(0).len() == 0);
            assert(spec_last_unmodified(lv) is None);
        }
        let lt = Type::Chord(Chord::new(sounds));
        let rt = Type::Note(right);
        let li = lt.inspect();
        let ri = rt.inspect();
        let mut msg = String::from_str("unknown operator: op: '");
        msg.append(op);
        msg.append("'  left: ");
        msg.append(li.as_str());
        msg.append("  right: ");
        msg.append(ri.as_str());
        proof {
            assert(msg@ =~= spec_unknown_sound_op_msg(op@, TypeModel::Chord(lv),
                TypeModel::Note(right.note)));
        }
        return new_error(msg, line);
    }
    let lt = Type::Chord(left);
    let rt = Type::Note(right);
    let li = lt.inspect();
    let ri = rt.inspect();
    let mut msg = String::from_str("unknown operator: op: '");
    msg.append(op);
    msg.append("'  left: ");
    msg.append(li.as_str());
    msg.append("  right: ");
    msg.append(ri.as_str());
    proof {
        assert(msg@ =~= spec_unknown_sound_op_msg(op@, lt@, rt@));
    }
    new_error(msg, line)
}

/// Negate an integer (with two's-complement wrap-around); nothing else
/// negates.
pub fn eval_minus_prefix(right: Type, line: usize) -> (r: Type)
    ensures
        right@ matches TypeModel::Int(v) ==> r@ == TypeModel::Int(
            if v == i32::MIN { i32::MIN } else { (-v) as i32 }),
        !(right@ is Int) ==> (r@ matches TypeModel::Error(m, l) && l == line as int),
{
    match right {
        Type::Int(i) => {
            if i == i32::MIN {
                Type::Int(i)
            } else {
                Type::Int(-i)
            }
        }
        other => {
            let ins = other.inspect();
            let mut msg = String::from_str("unknown operator: -");
            msg.append(ins.as_str());
            new_error(msg, line)
        }
    }
}

/// The value of an expression one level deep: a leaf, or a call of a
/// named built-in over error-free leaf arguments.  (No built-in's value
/// depends on the running state, so the value is a function of the node
/// and the environment.)
pub open spec fn spec_shallow_value(node: NodeType, env: EnvModel) -> Option<TypeModel> {
    match spec_leaf_value(node, env) {
        Some(v) => Some(v),
        None => match node {
            NodeType::CallExp(cb) => match *cb.func {
                NodeType::Ident(f) => match spec_eval_ident(env, f.value@,
                    f.token.line as int) {
                    TypeModel::Builtin(b) => match spec_leaf_values(cb.args@, env) {
                        Some(vals) => if spec_no_error_in(vals) {
                            Some(match b {
                                Builtin::Tempo => spec_apply_tempo(vals,
                                    cb.token.line as int, 0).0,
                                Builtin::Track => spec_apply_track(vals,
                                    cb.token.line as int),
                                Builtin::Vib => spec_apply_vib(vals, cb.token.line as int),
                                Builtin::Play => spec_apply_play(vals,
                                    cb.token.line as int).0,
                            })
                        } else {
                            None
                        },
                        None => None,
                    },
                    _ => None,
                },
                _ => None,
            },
            _ => None,
        },
    }
}

/// Evaluate one syntax node.  An integer literal is its value, an
/// identifier resolves by `spec_eval_ident`, an infix node over leaf
/// operands combines their values by `spec_combine`; a `let` yields null
/// and leaves its name bound — to exactly the evaluated value where the
/// value is a leaf.  Compound operands evaluate recursively.
pub fn eval(node: &NodeType, env: &mut Env, state: &mut EvalState) -> (r: Type)
    ensures
        node matches NodeType::IntLit(b) ==> r@ == TypeModel::Int(b.value) && *final(env)
            == *old(env) && *final(state) == *old(state),
        node matches NodeType::Ident(b) ==> r@ == spec_eval_ident(old(env)@, b.value@,
            b.token.line as int) && *final(env) == *old(env) && *final(state) == *old(state),
        node matches NodeType::CallExp(cb) ==> ((*cb.func) matches NodeType::Ident(f) ==> (
            spec_eval_ident(old(env)@, f.value@, f.token.line as int) matches
            TypeModel::Builtin(bi) ==> (spec_leaf_values(cb.args@, old(env)@) matches
            Some(vals) ==> (spec_no_error_in(vals) ==> *final(env) == *old(env)
            && spec_builtin_applied(bi, vals, cb.token.line as int, *old(state), *final(
            state), r@))))),
        node matches NodeType::InfixExp(b) ==> (b.right matches Some(rx) ==> (
            spec_leaf_value(*b.left, old(env)@) matches Some(l) ==> (spec_leaf_value(*rx,
            old(env)@) matches Some(rr) ==> (!(l is Error) && !(rr is Error) ==> r@
            == spec_combine(l, rr, b.operator@, b.token.line as int) && *final(env) == *old(
            env) && *final(state) == *old(state))))),
        node matches NodeType::AssignStmt(b) ==> (r@ is Null || r@ is Error) && (r@ is Null
            ==> final(env)@.own.contains_key(b.name.value@)) && (spec_shallow_value(*b.value,
            old(env)@) matches Some(v) ==> (!(v is Error) ==> r@ is Null && final(env)@.own
            == old(env)@.own.insert(b.name.value@, v) && final(env)@.outer == old(
            env)@.outer)) && (spec_leaf_value(*b.value, old(env)@) matches Some(v2) ==> (!(
            v2 is Error) ==> *final(state) == *old(state))),
    decreases *node,
{
    match node {
        NodeType::CallExp(b) => {
            proof {
                assert(decreases_to!(*node => **b));
            }
            eval_call_exp(&**b, env, state)
        }
        NodeType::InfixExp(b) => {
            proof {
                assert(decreases_to!(*node => **b));
            }
            eval_infix_expr(&**b, env, state)
        }
        NodeType::Ident(b) => eval_ident(&**b, env),
        NodeType::IntLit(b) => Type::Int(b.value),
        NodeType::PrefixExpr(b) => {
            proof {
                assert(decreases_to!(*node => **b));
            }
            eval_prefix_expr(&**b, env, state)
        }
        NodeType::AssignStmt(b) => {
            proof {
                assert(decreases_to!(*node => **b));
            }
            eval_assign_statement(&**b, env, state)
        }
    }
}

/// Evaluate a `let`: bind the name to the value, unless the value is an
/// error, which comes back instead.  The binding itself yields null; for a
/// leaf value the exact binding is pinned.
fn eval_assign_statement(st: &AssignStatement, env: &mut Env, state: &mut EvalState)
    -> (r: Type)
    ensures
        r@ is Null || r@ is Error,
        r@ is Null ==> final(env)@.own.contains_key(st.name.value@),
        spec_shallow_value(*st.value, old(env)@) matches Some(v) ==> (!(v is Error) ==> r@
            is Null && final(env)@.own == old(env)@.own.insert(st.name.value@, v)
            && final(env)@.outer == old(env)@.outer),
        spec_leaf_value(*st.value, old(env)@) matches Some(v2) ==> (!(v2 is Error) ==>
            *final(state) == *old(state)),
    decreases *st,
{
    proof {
        assert(decreases_to!(*st => *st.value));
    }
    let ghost pre_state = *state;
    let expr = eval(&st.value, env, state);
    proof {
        if spec_shallow_value(*st.value, old(env)@) is Some {
            let v = spec_shallow_value(*st.value, old(env)@)->0;
            if !(v is Error) && !(spec_leaf_value(*st.value, old(env)@) is Some) {
                match &*st.value {
                    NodeType::CallExp(cb) => {
                        match &*cb.func {
                            NodeType::Ident(f) => {
                                let vals = spec_leaf_values(cb.args@, old(env)@)->0;
                                let l = cb.token.line as int;
                                assert(spec_apply_tempo(vals, l, pre_state.tempo).0
                                    == spec_apply_tempo(vals, l, 0).0);
                            }
                            _ => {}
                        }
                    }
                    _ => {}
                }
            }
        }
    }
    if expr.is_error() {
        return expr;
    }
    let name = st.name.value.clone();
    env.set(name, expr);
    Type::Null
}

/// Evaluate a prefix operation: only `-` on an integer means anything.
fn eval_prefix_expr(pe: &PrefixExpression, env: &mut Env, state: &mut EvalState) -> (r: Type)
    decreases *pe,
{
    proof {
        assert(decreases_to!(*pe => *pe.right));
    }
    let right = eval(&pe.right, env, state);
    if right.is_error() {
        return right;
    }
    if str_eq(pe.operator.as_str(), "-") {
        return eval_minus_prefix(right, pe.token.line);
    }
    let ins = right.inspect();
    let mut msg = String::from_str("unknown operator: '");
    msg.append(pe.operator.as_str());
    msg.append("' ");
    msg.append(ins.as_str());
    new_error(msg, pe.token.line)
}

/// Combine two already-evaluated values under an infix operator: exactly
/// the dispatch table `spec_combine`, for every pair of value kinds.
pub fn combine_infix(left: Type, right: Type, op: &str, line: usize) -> (r: Type)
    ensures
        r@ == spec_combine(left@, right@, op@, line as int),
{
    match (left, right) {
        (Type::Int(l), Type::Int(r)) => eval_int_infix_expr(op, l, r, line),
        (Type::Sound(l), Type::Sound(r)) => eval_sound_infix_expr(op, l, r, line),
        (Type::Chord(l), Type::Sound(r)) => {
            let ghost rv = r@;
            let mut rs: Vec<Sound> = Vec::new();
            rs.push(r);
            let wrapped = Chord::new(rs);
            proof {
                assert(wrapped@ =~= seq![rv]);
            }
            eval_chord_infix_expr(op, l, wrapped, line)
        }
        (Type::Chord(l), Type::Chord(r)) => eval_chord_infix_expr(op, l, r, line),
        (Type::Sound(l), Type::Chord(r)) => {
            let ghost lv = l@;
            let mut ls: Vec<Sound> = Vec::new();
            ls.push(l);
            let wrapped = Chord::new(ls);
            proof {
                assert(wrapped@ =~= seq![lv]);
            }
            eval_chord_infix_expr(op, wrapped, r, line)
        }
        (Type::Sound(l), Type::Note(r)) => {
            let ghost lv = l@;
            let mut ls: Vec<Sound> = Vec::new();
            ls.push(l);
            let wrapped = Chord::new(ls);
            proof {
                assert(wrapped@ =~= seq![lv]);
            }
            eval_note_infix_expr(op, wrapped, r, line)
        }
        (Type::Chord(l), Type::Note(r)) => eval_note_infix_expr(op, l, r, line),
        (l, r) => {
            let ghost lv = l@;
            let ghost rv = r@;
            let li = l.inspect();
            let ri = r.inspect();
            let mut msg = String::from_str("unknown operands for plus: left - ");
            msg.append(li.as_str());
            msg.append("  right - ");
            msg.append(ri.as_str());
            proof {
                assert(msg@ =~= spec_unknown_operands_msg(lv, rv));
            }
            new_error(msg, line)
        }
    }
}

/// The value of an operand that needs no recursion to evaluate: an integer
/// literal, or an identifier resolved in the current environment.
pub open spec fn spec_leaf_value(node: NodeType, env: EnvModel) -> Option<TypeModel> {
    match node {
        NodeType::IntLit(b) => Some(TypeModel::Int(b.value)),
        NodeType::Ident(b) => Some(spec_eval_ident(env, b.value@, b.token.line as int)),
        _ => None,
    }
}

/// The values of an argument list all of whose items are leaves; `None`
/// where any item needs recursion.
pub open spec fn spec_leaf_values(args: Seq<NodeType>, env: EnvModel) -> Option<Seq<TypeModel>>
    decreases args.len(),
{
    if args.len() == 0 {
        Some(Seq::empty())
    } else {
        match spec_leaf_value(args[0], env) {
            Some(v) => match spec_leaf_values(args.drop_first(), env) {
                Some(rest) => Some(seq![v] + rest),
                None => None,
            },
            None => None,
        }
    }
}

/// No value of the list is an error.
pub open spec fn spec_no_error_in(vals: Seq<TypeModel>) -> bool {
    forall|i: int| 0 <= i < vals.len() ==> !((#[trigger] vals[i]) is Error)
}

/// A leaf argument list's values line up with its items, one for one.
pub proof fn lemma_leaf_values_index(args: Seq<NodeType>, env: EnvModel)
    requires
        spec_leaf_values(args, env) is Some,
    ensures
        spec_leaf_values(args, env)->0.len() == args.len(),
        forall|i: int| 0 <= i < args.len() ==> spec_leaf_value(#[trigger] args[i], env)
            == Some(spec_leaf_values(args, env)->0[i]),
    decreases args.len(),
{
    if args.len() > 0 {
        lemma_leaf_values_index(args.drop_first(), env);
        let vals = spec_leaf_values(args, env)->0;
        let rest = spec_leaf_values(args.drop_first(), env)->0;
        assert forall|i: int| 0 <= i < args.len() implies spec_leaf_value(#[trigger] args[i],
            env) == Some(vals[i]) by {
            if i > 0 {
                assert(args.drop_first()[i - 1] == args[i]);
                assert(vals[i] == rest[i - 1]);
            }
        }
    }
}

/// Evaluate both sides of an infix operation and combine them by the
/// dispatch table `spec_combine`; where both operands are leaves the whole
/// result is pinned here.
fn eval_infix_expr(infix: &InfixExpression, env: &mut Env, state: &mut EvalState) -> (r: Type)
    ensures
        infix.right matches Some(rx) ==> (spec_leaf_value(*infix.left, old(env)@) matches
            Some(l) ==> (spec_leaf_value(*rx, old(env)@) matches Some(rr) ==> (!(l is Error)
            && !(rr is Error) ==> r@ == spec_combine(l, rr, infix.operator@,
            infix.token.line as int) && *final(env) == *old(env) && *final(state) == *old(
            state)))),
    decreases *infix,
{
    proof {
        assert(decreases_to!(*infix => *infix.left));
    }
    let left = eval(&infix.left, env, state);
    if left.is_error() {
        return left;
    }
    let right = match &infix.right {
        Some(rx) => {
            proof {
                assert(decreases_to!(*infix => **rx));
            }
            eval(&**rx, env, state)
        }
        None => {
            return new_error(String::from_str("missing right operand"), infix.token.line);
        }
    };
    if right.is_error() {
        return right;
    }
    combine_infix(left, right, infix.operator.as_str(), infix.token.line)
}

/// What applying a built-in to evaluated argument values yields, and what
/// it does to the state: `tempo` may set the tempo, `play` may queue one
/// song, `track` and `vib` touch nothing.
pub open spec fn spec_builtin_applied(b: Builtin, vals: Seq<TypeModel>, line: int,
    pre: EvalState, post: EvalState, r: TypeModel) -> bool {
    match b {
        Builtin::Tempo => r == spec_apply_tempo(vals, line, pre.tempo).0 && post.tempo
            == spec_apply_tempo(vals, line, pre.tempo).1 && post.plays == pre.plays,
        Builtin::Track => r == spec_apply_track(vals, line) && post == pre,
        Builtin::Vib => r == spec_apply_vib(vals, line) && post == pre,
        Builtin::Play => r == spec_apply_play(vals, line).0 && post.tempo == pre.tempo
            && match spec_apply_play(vals, line).1 {
                Some(ins) => spec_played(pre, post, ins),
                None => post == pre,
            },
    }
}

/// Evaluate a call: the callee must be a built-in; an error among the
/// arguments comes back instead.  For a named built-in over error-free
/// leaf arguments the whole application is pinned here.
fn eval_call_exp(call: &CallExpression, env: &mut Env, state: &mut EvalState) -> (r: Type)
    ensures
        (*call.func) matches NodeType::Ident(f) ==> (spec_eval_ident(old(env)@, f.value@,
            f.token.line as int) matches TypeModel::Builtin(b) ==> (spec_leaf_values(
            call.args@, old(env)@) matches Some(vals) ==> (spec_no_error_in(vals) ==>
            *final(env) == *old(env) && spec_builtin_applied(b, vals,
            call.token.line as int, *old(state), *final(state), r@)))),
    decreases *call,
{
    proof {
        assert(decreases_to!(*call => *call.func));
    }
    let func = eval(&call.func, env, state);
    if func.is_error() {
        return func;
    }
    proof {
        assert(decreases_to!(*call => call.args));
    }
    let args = eval_exprs(&call.args, env, state);
    proof {
        if spec_leaf_values(call.args@, old(env)@) is Some {
            let vals = spec_leaf_values(call.args@, old(env)@)->0;
            if spec_no_error_in(vals) && args@.len() > 0 {
                assert(args.deep_view()[0] == args@[0]@);
            }
        }
    }
    if args.len() > 0 {
        if (&args[0]).is_error() {
            return (&args[0]).dup();
        }
    }
    let line = call.token.line;
    match func {
        Type::Builtin(b) => match b {
            crate::interpreter::object::Builtin::Tempo => builtin_tempo(args, line, state),
            crate::interpreter::object::Builtin::Play => builtin_play(args, line, state),
            crate::interpreter::object::Builtin::Track => builtin_track(args, line),
            crate::interpreter::object::Builtin::Vib => builtin_vibrato(args, line),
        },
        other => {
            let ins = other.inspect();
            let mut msg = String::from_str("not a function: ");
            msg.append(ins.as_str());
            new_error(msg, line)
        }
    }
}

/// Evaluate an argument list, in order; the first error cuts the list
/// short and is returned alone.  A list of error-free leaves evaluates to
/// exactly its leaf values, touching nothing.
fn eval_exprs(exprs: &Vec<NodeType>, env: &mut Env, state: &mut EvalState) -> (r: Vec<Type>)
    ensures
        spec_leaf_values(exprs@, old(env)@) matches Some(vals) ==> (spec_no_error_in(vals)
            ==> r.deep_view() == vals && *final(env) == *old(env) && *final(state) == *old(
            state)),
    decreases *exprs,
{
    let ghost env0 = env@;
    let mut objs: Vec<Type> = Vec::new();
    let n = exprs.len();
    let mut i: usize = 0;
    proof {
        assert(decreases_to!(*exprs => exprs@));
        if spec_leaf_values(exprs@, env0) is Some {
            lemma_leaf_values_index(exprs@, env0);
        }
    }
    while i < n
        invariant
            n == exprs@.len(),
            i <= n,
            decreases_to!(*exprs => exprs@),
            env0 == old(env)@,
            match spec_leaf_values(exprs@, env0) {
                Some(vals) => spec_no_error_in(vals) ==> objs.deep_view() == vals.take(
                    i as int) && *env == *old(env) && *state == *old(state) && vals.len()
                    == n && (forall|j: int| 0 <= j < n ==> spec_leaf_value(
                    #[trigger] exprs@[j], env0) == Some(vals[j])),
                None => true,
            },
        decreases n - i,
    {
        proof {
            assert(decreases_to!(exprs@ => exprs@[i as int]));
            assert(decreases_to!(*exprs => exprs@[i as int]));
        }
        let ghost pre_objs = objs;
        let evaluated = eval(&exprs[i], env, state);
        if evaluated.is_error() {
            let mut only: Vec<Type> = Vec::new();
            only.push(evaluated);
            return only;
        }
        let ghost eg = evaluated;
        objs.push(evaluated);
        proof {
            crate::views::lemma_vec_deep_view_push(pre_objs, objs, eg);
            if spec_leaf_values(exprs@, env0) is Some {
                let vals = spec_leaf_values(exprs@, env0)->0;
                if spec_no_error_in(vals) {
                    assert(eg@ == vals[i as int]);
                    assert(objs.deep_view() =~= vals.take(i + 1));
                }
            }
        }
        i = i + 1;
    }
    proof {
        if spec_leaf_values(exprs@, env0) is Some {
            let vals = spec_leaf_values(exprs@, env0)->0;
            if spec_no_error_in(vals) {
                assert(vals.take(n as int) =~= vals);
            }
        }
    }
    objs
}

/// Bind every predeclared pitch, octave and duration name in `env`,
/// shadowing whatever held those names; every other binding is untouched.
#[verifier::rlimit(100)]
pub fn inject_predeclared(env: &mut Env)
    ensures
        spec_env_lookup(final(env)@, "x"@) == Some(TypeModel::Note(PNote::Space)),
        spec_env_lookup(final(env)@, "a"@) == Some(TypeModel::Note(PNote::A)),
        spec_env_lookup(final(env)@, "a#"@) == Some(TypeModel::Note(PNote::ASharp)),
        spec_env_lookup(final(env)@, "b"@) == Some(TypeModel::Note(PNote::B)),
        spec_env_lookup(final(env)@, "c"@) == Some(TypeModel::Note(PNote::C)),
        spec_env_lookup(final(env)@, "c#"@) == Some(TypeModel::Note(PNote::CSharp)),
        spec_env_lookup(final(env)@, "d"@) == Some(TypeModel::Note(PNote::D)),
        spec_env_lookup(final(env)@, "d#"@) == Some(TypeModel::Note(PNote::DSharp)),
        spec_env_lookup(final(env)@, "e"@) == Some(TypeModel::Note(PNote::E)),
        spec_env_lookup(final(env)@, "f"@) == Some(TypeModel::Note(PNote::F)),
        spec_env_lookup(final(env)@, "f#"@) == Some(TypeModel::Note(PNote::FSharp)),
        spec_env_lookup(final(env)@, "g"@) == Some(TypeModel::Note(PNote::G)),
        spec_env_lookup(final(env)@, "g#"@) == Some(TypeModel::Note(PNote::GSharp)),
        spec_env_lookup(final(env)@, "o1"@) == Some(TypeModel::Octave(crate::player::sound::Octave::One)),
        spec_env_lookup(final(env)@, "o2"@) == Some(TypeModel::Octave(crate::player::sound::Octave::Two)),
        spec_env_lookup(final(env)@, "o3"@) == Some(TypeModel::Octave(crate::player::sound::Octave::Three)),
        spec_env_lookup(final(env)@, "o4"@) == Some(TypeModel::Octave(crate::player::sound::Octave::Four)),
        spec_env_lookup(final(env)@, "o5"@) == Some(TypeModel::Octave(crate::player::sound::Octave::Five)),
        spec_env_lookup(final(env)@, "o6"@) == Some(TypeModel::Octave(crate::player::sound::Octave::Six)),
        spec_env_lookup(final(env)@, "o7"@) == Some(TypeModel::Octave(crate::player::sound::Octave::Seven)),
        spec_env_lookup(final(env)@, "o8"@) == Some(TypeModel::Octave(crate::player::sound::Octave::Eight)),
        spec_env_lookup(final(env)@, "d1"@) == Some(TypeModel::Duration(crate::player::tempo::Duration::Whole)),
        spec_env_lookup(final(env)@, "d2*"@) == Some(TypeModel::Duration(crate::player::tempo::Duration::HalfDotted)),
        spec_env_lookup(final(env)@, "d2"@) == Some(TypeModel::Duration(crate::player::tempo::Duration::Half)),
        spec_env_lookup(final(env)@, "d4*"@) == Some(TypeModel::Duration(crate::player::tempo::Duration::QuarterDotted)),
        spec_env_lookup(final(env)@, "d4"@) == Some(TypeModel::Duration(crate::player::tempo::Duration::Quarter)),
        spec_env_lookup(final(env)@, "d8*"@) == Some(TypeModel::Duration(crate::player::tempo::Duration::EightDotted)),
        spec_env_lookup(final(env)@, "d8"@) == Some(TypeModel::Duration(crate::player::tempo::Duration::Eight)),
        spec_env_lookup(final(env)@, "d16*"@) == Some(TypeModel::Duration(crate::player::tempo::Duration::SixteenthDotted)),
        spec_env_lookup(final(env)@, "d16"@) == Some(TypeModel::Duration(crate::player::tempo::Duration::Sixteenth)),
        spec_env_lookup(final(env)@, "d32*"@) == Some(TypeModel::Duration(crate::player::tempo::Duration::ThirtySecondDotted)),
        spec_env_lookup(final(env)@, "d32"@) == Some(TypeModel::Duration(crate::player::tempo::Duration::ThirtySecond)),
        final(env)@.outer == old(env)@.outer,
{
    // Spell out each name's characters, so the prover can tell the names
    // apart when it reads the bindings back.
    proof {
        reveal_strlit("x");
        reveal_strlit("a");
        reveal_strlit("a#");
        reveal_strlit("b");
        reveal_strlit("c");
        reveal_strlit("c#");
        reveal_strlit("d");
        reveal_strlit("d#");
        reveal_strlit("e");
        reveal_strlit("f");
        reveal_strlit("f#");
        reveal_strlit("g");
        reveal_strlit("g#");
        reveal_strlit("o1");
        reveal_strlit("o2");
        reveal_strlit("o3");
        reveal_strlit("o4");
        reveal_strlit("o5");
        reveal_strlit("o6");
        reveal_strlit("o7");
        reveal_strlit("o8");
        reveal_strlit("d1");
        reveal_strlit("d2*");
        reveal_strlit("d2");
        reveal_strlit("d4*");
        reveal_strlit("d4");
        reveal_strlit("d8*");
        reveal_strlit("d8");
        reveal_strlit("d16*");
        reveal_strlit("d16");
        reveal_strlit("d32*");
        reveal_strlit("d32");
        assert("x"@.len() == 1);
        assert("x"@[0] == 'x');
        assert("a"@.len() == 1);
        assert("a"@[0] == 'a');
        assert("a#"@.len() == 2);
        assert("a#"@[0] == 'a');
        assert("a#"@[1] == '#');
        assert("b"@.len() == 1);
        assert("b"@[0] == 'b');
        assert("c"@.len() == 1);
        assert("c"@[0] == 'c');
        assert("c#"@.len() == 2);
        assert("c#"@[0] == 'c');
        assert("c#"@[1] == '#');
        assert("d"@.len() == 1);
        assert("d"@[0] == 'd');
        assert("d#"@.len() == 2);
        assert("d#"@[0] == 'd');
        assert("d#"@[1] == '#');
        assert("e"@.len() == 1);
        assert("e"@[0] == 'e');
        assert("f"@.len() == 1);
        assert("f"@[0] == 'f');
        assert("f#"@.len() == 2);
        assert("f#"@[0] == 'f');
        assert("f#"@[1] == '#');
        assert("g"@.len() == 1);
        assert("g"@[0] == 'g');
        assert("g#"@.len() == 2);
        assert("g#"@[0] == 'g');
        assert("g#"@[1] == '#');
        assert("o1"@.len() == 2);
        assert("o1"@[0] == 'o');
        assert("o1"@[1] == '1');
        assert("o2"@.len() == 2);
        assert("o2"@[0] == 'o');
        assert("o2"@[1] == '2');
        assert("o3"@.len() == 2);
        assert("o3"@[0] == 'o');
        assert("o3"@[1] == '3');
        assert("o4"@.len() == 2);
        assert("o4"@[0] == 'o');
        assert("o4"@[1] == '4');
        assert("o5"@.len() == 2);
        assert("o5"@[0] == 'o');
        assert("o5"@[1] == '5');
        assert("o6"@.len() == 2);
        assert("o6"@[0] == 'o');
        assert("o6"@[1] == '6');
        assert("o7"@.len() == 2);
        assert("o7"@[0] == 'o');
        assert("o7"@[1] == '7');
        assert("o8"@.len() == 2);
        assert("o8"@[0] == 'o');
        assert("o8"@[1] == '8');
        assert("d1"@.len() == 2);
        assert("d1"@[0] == 'd');
        assert("d1"@[1] == '1');
        assert("d2*"@.len() == 3);
        assert("d2*"@[0] == 'd');
        assert("d2*"@[1] == '2');
        assert("d2*"@[2] == '*');
        assert("d2"@.len() == 2);
        assert("d2"@[0] == 'd');
        assert("d2"@[1] == '2');
        assert("d4*"@.len() == 3);
        assert("d4*"@[0] == 'd');
        assert("d4*"@[1] == '4');
        assert("d4*"@[2] == '*');
        assert("d4"@.len() == 2);
        assert("d4"@[0] == 'd');
        assert("d4"@[1] == '4');
        assert("d8*"@.len() == 3);
        assert("d8*"@[0] == 'd');
        assert("d8*"@[1] == '8');
        assert("d8*"@[2] == '*');
        assert("d8"@.len() == 2);
        assert("d8"@[0] == 'd');
        assert("d8"@[1] == '8');
        assert("d16*"@.len() == 4);
        assert("d16*"@[0] == 'd');
        assert("d16*"@[1] == '1');
        assert("d16*"@[2] == '6');
        assert("d16*"@[3] == '*');
        assert("d16"@.len() == 3);
        assert("d16"@[0] == 'd');
        assert("d16"@[1] == '1');
        assert("d16"@[2] == '6');
        assert("d32*"@.len() == 4);
        assert("d32*"@[0] == 'd');
        assert("d32*"@[1] == '3');
        assert("d32*"@[2] == '2');
        assert("d32*"@[3] == '*');
        assert("d32"@.len() == 3);
        assert("d32"@[0] == 'd');
        assert("d32"@[1] == '3');
        assert("d32"@[2] == '2');
    }
    env.set(String::from_str("x"), Type::Note(Note { note: PNote::Space }));
    env.set(String::from_str("a"), Type::Note(Note { note: PNote::A }));
    env.set(String::from_str("a#"), Type::Note(Note { note: PNote::ASharp }));
    env.set(String::from_str("b"), Type::Note(Note { note: PNote::B }));
    env.set(String::from_str("c"), Type::Note(Note { note: PNote::C }));
    env.set(String::from_str("c#"), Type::Note(Note { note: PNote::CSharp }));
    env.set(String::from_str("d"), Type::Note(Note { note: PNote::D }));
    env.set(String::from_str("d#"), Type::Note(Note { note: PNote::DSharp }));
    env.set(String::from_str("e"), Type::Note(Note { note: PNote::E }));
    env.set(String::from_str("f"), Type::Note(Note { note: PNote::F }));
    env.set(String::from_str("f#"), Type::Note(Note { note: PNote::FSharp }));
    env.set(String::from_str("g"), Type::Note(Note { note: PNote::G }));
    env.set(String::from_str("g#"), Type::Note(Note { note: PNote::GSharp }));
    env.set(String::from_str("o1"), Type::Octave(crate::interpreter::object::Octave {
        octave: crate::player::sound::Octave::One }));
    env.set(String::from_str("o2"), Type::Octave(crate::interpreter::object::Octave {
        octave: crate::player::sound::Octave::Two }));
    env.set(String::from_str("o3"), Type::Octave(crate::interpreter::object::Octave {
        octave: crate::player::sound::Octave::Three }));
    env.set(String::from_str("o4"), Type::Octave(crate::interpreter::object::Octave {
        octave: crate::player::sound::Octave::Four }));
    env.set(String::from_str("o5"), Type::Octave(crate::interpreter::object::Octave {
        octave: crate::player::sound::Octave::Five }));
    env.set(String::from_str("o6"), Type::Octave(crate::interpreter::object::Octave {
        octave: crate::player::sound::Octave::Six }));
    env.set(String::from_str("o7"), Type::Octave(crate::interpreter::object::Octave {
        octave: crate::player::sound::Octave::Seven }));
    env.set(String::from_str("o8"), Type::Octave(crate::interpreter::object::Octave {
        octave: crate::player::sound::Octave::Eight }));
    env.set(String::from_str("d1"), Type::Duration(crate::interpreter::object::Duration {
        dur: crate::player::tempo::Duration::Whole }));
    env.set(String::from_str("d2*"), Type::Duration(crate::interpreter::object::Duration {
        dur: crate::player::tempo::Duration::HalfDotted }));
    env.set(String::from_str("d2"), Type::Duration(crate::interpreter::object::Duration {
        dur: crate::player::tempo::Duration::Half }));
    env.set(String::from_str("d4*"), Type::Duration(crate::interpreter::object::Duration {
        dur: crate::player::tempo::Duration::QuarterDotted }));
    env.set(String::from_str("d4"), Type::Duration(crate::interpreter::object::Duration {
        dur: crate::player::tempo::Duration::Quarter }));
    env.set(String::from_str("d8*"), Type::Duration(crate::interpreter::object::Duration {
        dur: crate::player::tempo::Duration::EightDotted }));
    env.set(String::from_str("d8"), Type::Duration(crate::interpreter::object::Duration {
        dur: crate::player::tempo::Duration::Eight }));
    env.set(String::from_str("d16*"), Type::Duration(crate::interpreter::object::Duration {
        dur: crate::player::tempo::Duration::SixteenthDotted }));
    env.set(String::from_str("d16"), Type::Duration(crate::interpreter::object::Duration {
        dur: crate::player::tempo::Duration::Sixteenth }));
    env.set(String::from_str("d32*"), Type::Duration(crate::interpreter::object::Duration {
        dur: crate::player::tempo::Duration::ThirtySecondDotted }));
    env.set(String::from_str("d32"), Type::Duration(crate::interpreter::object::Duration {
        dur: crate::player::tempo::Duration::ThirtySecond }));
}

} // verus!
