use soundbytes::interpreter::builtin::EvalState;
use soundbytes::interpreter::eval::{eval, inject_predeclared};
use soundbytes::interpreter::lexer::Lexer;
use soundbytes::interpreter::object::Env;
use soundbytes::interpreter::parser::Parser;
use soundbytes::player::instrument::VoiceFrame;
use soundbytes::player::mixer::Mixer;
use soundbytes::player::song::Song;
use soundbytes::player::sound::Note;
use soundbytes::player::sound::Octave;
use soundbytes::player::tempo::{calc_duration, Duration, SampleClock, Tempo, TempoErr};
use soundbytes::interpreter::builtin::new_opts;
use soundbytes::player::instrument::Synth;
use soundbytes::player::sound::Sound;
use std::collections::VecDeque;

/// Evaluate a program and hand back the songs its `play` calls queued.
fn songs_of(src: &str) -> Vec<Song> {
    let lex = Lexer::new(src);
    let mut p = Parser::new(lex);
    let program = p.parse_program();
    assert_eq!(0, p.get_errors().len());
    let mut env = Env::new();
    inject_predeclared(&mut env);
    let mut state = EvalState::new();
    for exp in &program.exprs {
        let r = eval(exp, &mut env, &mut state);
        assert!(!r.is_error(), "unexpected error: {}", r.inspect());
    }
    state.plays
}

/// Drive a song's mixer one frame at a time until the whole song has been
/// seen to finish, returning the per-frame voice lists.
fn run_song(song: Song, sample_rate: u32, bound: usize) -> Vec<Vec<VoiceFrame>> {
    let mut mixer = Mixer::new(song);
    let mut frames = Vec::new();
    while !mixer.all_finished() {
        assert!(frames.len() < bound, "song did not finish within {} frames", bound);
        frames.push(mixer.mix_frame(sample_rate));
    }
    frames
}

#[test]
fn test_beats_table() {
    // The note-length table, in sixteenths of a beat.
    assert_eq!(64, Duration::Whole.to_beats_16());
    assert_eq!(48, Duration::HalfDotted.to_beats_16());
    assert_eq!(32, Duration::Half.to_beats_16());
    assert_eq!(24, Duration::QuarterDotted.to_beats_16());
    assert_eq!(16, Duration::Quarter.to_beats_16());
    assert_eq!(12, Duration::EightDotted.to_beats_16());
    assert_eq!(8, Duration::Eight.to_beats_16());
    assert_eq!(6, Duration::SixteenthDotted.to_beats_16());
    assert_eq!(4, Duration::Sixteenth.to_beats_16());
    assert_eq!(3, Duration::ThirtySecondDotted.to_beats_16());
    assert_eq!(2, Duration::ThirtySecond.to_beats_16());
}

#[test]
fn test_calc_duration_quarter_at_120() {
    assert_eq!(24000, calc_duration(48000, 120, &Duration::Quarter));
}

#[test]
fn test_calc_duration_whole_at_60() {
    assert_eq!(192000, calc_duration(48000, 60, &Duration::Whole));
}

#[test]
fn test_sample_clock_end_is_sticky() {
    let mut clock = SampleClock::new(3);
    assert_eq!(0, clock.get_clock());
    assert!(!clock.has_ended());
    for _ in 0..3 {
        clock.update_clock();
        assert!(!clock.has_ended());
    }
    assert_eq!(3, clock.get_clock());
    for _ in 0..10 {
        clock.update_clock();
        assert!(clock.has_ended());
        assert_eq!(3, clock.get_clock());
    }
}

#[test]
fn test_semitone_offsets() {
    // A4 is the reference pitch: zero semitones from 440 Hz.
    assert_eq!(Some(0), Note::A.semitone_offset(&Octave::Four));
    // The rest is silent: no offset at all.
    assert_eq!(None, Note::Space.semitone_offset(&Octave::Four));
    // C at octave four sits three semitones above A4.
    assert_eq!(Some(3), Note::C.semitone_offset(&Octave::Four));
    assert_eq!(Some(-36), Note::A.semitone_offset(&Octave::One));
}

#[test]
fn test_push_tempo_rejects_zero() {
    let mut song = Song::new(0);
    let r = song.push_tempo(Tempo { value: 0, from_beat: 0 });
    match r {
        Err(TempoErr::InvalidOp { left, right, op, msg }) => {
            assert_eq!(0, left);
            assert_eq!(0, right);
            assert_eq!("+", op);
            assert_eq!("allowed values for tempo are above 0.", msg);
        }
        Ok(()) => panic!("expected a tempo error"),
    }
}

#[test]
fn test_push_tempo_sets_start_then_records_changes() {
    let mut song = Song::new(0);
    assert!(song.push_tempo(Tempo { value: 100, from_beat: 0 }).is_ok());
    assert_eq!(100, song.start_tempo);
    assert_eq!(0, song.tempo_changes.len());
    assert!(song.push_tempo(Tempo { value: 20, from_beat: 4 }).is_ok());
    assert_eq!(100, song.start_tempo);
    assert_eq!(1, song.tempo_changes.len());
    assert_eq!(20, song.tempo_changes[0].value);
}

#[test]
fn test_empty_chord_is_skipped() {
    // A score with an empty chord between two notes: popping the empty
    // chord leaves nothing to wait for, so the next frame pops on.  At
    // 160 Hz and 120 BPM a sixteenth is 20 frames; each note holds its
    // voice for 22 mixer calls, the empty chord takes one call, one call
    // finishes the score and one more lets the mixer see it.
    let mut score: VecDeque<Vec<Sound>> = VecDeque::new();
    score.push_back(vec![Sound::new(Note::C, Octave::Four, Duration::Sixteenth)]);
    score.push_back(vec![]);
    score.push_back(vec![Sound::new(Note::E, Octave::Four, Duration::Sixteenth)]);
    let synth = Synth::new(new_opts(), score);
    let mut song = Song::new(120);
    song.push_instrument(synth);
    let frames = run_song(song, 160, 1000);
    assert_eq!(47, frames.len());
    assert_eq!(Note::C, frames[0][0].note);
    // The empty chord's own frame carries no voice.
    assert_eq!(0, frames[22].len());
    assert_eq!(Note::E, frames[23][0].note);
}

#[test]
fn test_quarter_note_frame_count() {
    // tempo(120); play(c_4_4); at 48000 Hz: the quarter note is 24000
    // frames; the instrument takes one frame to find the voice ended and
    // one to retire it, and the mixer one more to count the instrument
    // finished.
    let mut songs = songs_of("tempo(120); play(c_4_4);");
    assert_eq!(1, songs.len());
    let song = songs.remove(0);
    assert_eq!(120, song.start_tempo);
    assert_eq!(1, song.instruments.len());
    let frames = run_song(song, 48000, 30000);
    assert_eq!(24004, frames.len());
    // The first frame sounds the one voice at its first tick.
    assert_eq!(1, frames[0].len());
    assert_eq!(Note::C, frames[0][0].note);
    assert_eq!(0, frames[0][0].fx_clock);
    assert_eq!(1, frames[0][0].clock);
    // Mid-note the voice is still sounding.
    assert_eq!(1, frames[4800].len());
    assert_eq!(1, frames[10000].len());
    // The last sounding frame is number 24001; after that, silence.
    assert_eq!(1, frames[24000].len());
    assert_eq!(0, frames[24001].len());
}

#[test]
fn test_chord_sounds_three_voices() {
    // tempo(120); play(c_4_4 + e_4_4 + g_4_4); — three simultaneous
    // voices for one quarter note, advancing in lockstep.
    let mut songs = songs_of("tempo(120); play(c_4_4 + e_4_4 + g_4_4);");
    let song = songs.remove(0);
    let frames = run_song(song, 48000, 30000);
    assert_eq!(24004, frames.len());
    assert_eq!(3, frames[0].len());
    assert_eq!(Note::C, frames[0][0].note);
    assert_eq!(Note::E, frames[0][1].note);
    assert_eq!(Note::G, frames[0][2].note);
    for v in &frames[12000] {
        assert_eq!(frames[12000][0].clock, v.clock);
    }
}

#[test]
fn test_whole_note_at_60_bpm() {
    // tempo(60); play(c_4_1); — four seconds at 48000 Hz is 192000 frames.
    let mut songs = songs_of("tempo(60); play(c_4_1);");
    let song = songs.remove(0);
    let frames = run_song(song, 48000, 200000);
    assert_eq!(192004, frames.len());
}

#[test]
fn test_track_binds_and_plays() {
    // tempo(120); let a = track(c_4_4); play(a); — the binding yields
    // Null, and the later play queues the bound instrument.
    let lex = Lexer::new("tempo(120); let a = track(c_4_4); play(a);");
    let mut p = Parser::new(lex);
    let program = p.parse_program();
    assert_eq!(3, program.exprs.len());
    let mut env = Env::new();
    inject_predeclared(&mut env);
    let mut state = EvalState::new();
    let r0 = eval(&program.exprs[0], &mut env, &mut state);
    assert!(matches!(r0, soundbytes::interpreter::object::Type::Null));
    let r1 = eval(&program.exprs[1], &mut env, &mut state);
    assert!(matches!(r1, soundbytes::interpreter::object::Type::Null));
    let r2 = eval(&program.exprs[2], &mut env, &mut state);
    assert!(matches!(r2, soundbytes::interpreter::object::Type::Null));
    assert_eq!(1, state.plays.len());
    let song = state.plays.remove(0);
    assert_eq!(1, song.instruments.len());
    let frames = run_song(song, 48000, 30000);
    assert_eq!(24004, frames.len());
}

#[test]
fn test_rest_between_notes() {
    // tempo(120); play(c_4_4, x_4_4, c_4_4); — the middle note is the
    // rest: its voice runs like any other but carries the silent pitch.
    let mut songs = songs_of("tempo(120); play(c_4_4, x_4_4, c_4_4);");
    let song = songs.remove(0);
    assert_eq!(1, song.instruments.len());
    assert_eq!(3, song.instruments[0].score.len());
    assert_eq!(Note::Space, song.instruments[0].score[1][0].note);
    let frames = run_song(song, 48000, 100000);
    // Three quarter notes of 24000 frames, each holding its voice for
    // 24002 mixer calls, one call to finish the score and one for the
    // mixer to see it.
    assert_eq!(72008, frames.len());
    // A frame in the middle third carries the rest.
    assert_eq!(Note::Space, frames[30000][0].note);
}

#[test]
fn test_play_of_two_tracks_mixes_two_instruments() {
    let mut songs = songs_of(
        "tempo(120); let a = track(c_4_4); let b = track(e_4_8); play(a, b);");
    let song = songs.remove(0);
    assert_eq!(2, song.instruments.len());
    let frames = run_song(song, 48000, 30000);
    // Both instruments sound in the first frame.
    assert_eq!(2, frames[0].len());
    // The eighth note ends half way; after that only the quarter sounds.
    assert_eq!(1, frames[15000].len());
    // The longer quarter note drives the total length.
    assert_eq!(24004, frames.len());
}
