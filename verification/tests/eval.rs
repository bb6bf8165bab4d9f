use soundbytes::interpreter::builtin::EvalState;
use soundbytes::interpreter::eval::{eval, inject_predeclared};
use soundbytes::interpreter::lexer::Lexer;
use soundbytes::interpreter::object::{Env, Type};
use soundbytes::interpreter::parser::Parser;
use soundbytes::player::sound::{Effect, Note, Octave};
use soundbytes::player::tempo::Duration;

fn run(src: &str) -> (Vec<Type>, Env, EvalState) {
    let lex = Lexer::new(src);
    let mut p = Parser::new(lex);
    let program = p.parse_program();
    let mut env = Env::new();
    inject_predeclared(&mut env);
    let mut state = EvalState::new();
    let mut results = Vec::new();
    for exp in &program.exprs {
        results.push(eval(exp, &mut env, &mut state));
    }
    (results, env, state)
}

#[test]
fn test_eval_int_expr() {
    let tests = vec![
        ("5", 5),
        ("10", 10),
        ("-5", -5),
        ("5 + 5 - 10 + 5", 5),
        ("2 * 2", 4),
        ("10/5", 2),
    ];

    for (expr, res) in tests {
        let lex = Lexer::new(expr);
        let mut p = Parser::new(lex);
        let program = p.parse_program();
        for exp in &program.exprs {
            let mut env = Env::new();
            let mut state = EvalState::new();
            let evaluated = eval(exp, &mut env, &mut state);
            match &evaluated {
                Type::Int(i) => assert_eq!(&res, i),
                t => panic!("expected Int, got {:?}", t),
            }
        }
    }
}

#[test]
fn test_track() {
    let expr = "let a = track(a_3_8*);";
    let lex = Lexer::new(expr);
    let mut p = Parser::new(lex);
    let program = p.parse_program();
    let mut env = Env::new();
    inject_predeclared(&mut env);
    let mut state = EvalState::new();

    assert_eq!(1, program.exprs.len());

    for exp in &program.exprs {
        let obj = eval(exp, &mut env, &mut state);
        if let Type::Null = obj {
        } else {
            panic!("expected Null object");
        }
    }

    if let Some(_) = env.get("a") {
        return;
    }
    panic!("expected `a` identifier to be stored in the env");
}

#[test]
fn test_daniel_expr() {
    let expr = "let t = 1; 1 - t * 4 + 3;";
    let res = 0;
    let lex = Lexer::new(expr);
    let mut p = Parser::new(lex);
    let program = p.parse_program();

    assert_eq!(2, program.exprs.len());

    let mut env = Env::new();
    let mut state = EvalState::new();

    let exp = program.exprs.first().unwrap();
    let evaluated = eval(exp, &mut env, &mut state);
    match &evaluated {
        Type::Null => {}
        t => panic!("expected Int, got {:?}", t),
    }

    let exp = program.exprs.get(1).unwrap();
    let evaluated = eval(exp, &mut env, &mut state);
    match &evaluated {
        Type::Int(i) => assert_eq!(&res, i),
        t => panic!("expected Int, got {:?}", t),
    }
}

#[test]
fn test_tempo_zero_is_rejected() {
    let (results, _, state) = run("tempo(0);");
    assert_eq!(1, results.len());
    match &results[0] {
        Type::Error(e) => assert_eq!("tempo should be higher than 0", e.msg),
        other => panic!("expected an error, got {:?}", other),
    }
    assert_eq!(0, state.tempo);
}

#[test]
fn test_tempo_wrong_arity_is_rejected() {
    let (results, _, _) = run("tempo(1, 2);");
    match &results[0] {
        Type::Error(e) => assert_eq!("wrong number of arguments. got=2, want=1", e.msg),
        other => panic!("expected an error, got {:?}", other),
    }
}

#[test]
fn test_tempo_of_non_integer_is_rejected() {
    let (results, _, state) = run("tempo(c);");
    match &results[0] {
        Type::Error(e) => assert_eq!("invalid tempo: expected integer, got Note: C", e.msg),
        other => panic!("expected an error, got {:?}", other),
    }
    assert_eq!(0, state.tempo);
}

#[test]
fn test_tempo_sets_state() {
    let (results, _, state) = run("tempo(120);");
    assert!(matches!(results[0], Type::Null));
    assert_eq!(120, state.tempo);
}

#[test]
fn test_play_without_arguments_is_rejected() {
    let (results, _, state) = run("play();");
    match &results[0] {
        Type::Error(e) => {
            assert_eq!("zero arguments given to play. what am i supposed to play, huh?", e.msg)
        }
        other => panic!("expected an error, got {:?}", other),
    }
    assert_eq!(0, state.plays.len());
}

#[test]
fn test_track_without_arguments_is_rejected() {
    let (results, _, _) = run("track();");
    match &results[0] {
        Type::Error(e) => assert_eq!("zero arguments given to track. i am expecting notes", e.msg),
        other => panic!("expected an error, got {:?}", other),
    }
}

#[test]
fn test_track_of_bare_note_is_rejected() {
    let (results, _, _) = run("track(a);");
    match &results[0] {
        Type::Error(e) => {
            assert_eq!("expected first note to have an octave and duration", e.msg)
        }
        other => panic!("expected an error, got {:?}", other),
    }
}

#[test]
fn test_note_name_resolves_to_sound() {
    let (results, _, _) = run("c_4_4;");
    match &results[0] {
        Type::Sound(s) => {
            assert_eq!(Note::C, s.sound.note);
            assert_eq!(Octave::Four, s.sound.octave);
            assert_eq!(Duration::Quarter, s.sound.duration);
            assert!(!s.modified);
        }
        other => panic!("expected a sound, got {:?}", other),
    }
}

#[test]
fn test_rest_note_name_takes_octave_four() {
    let (results, _, _) = run("x_4_4;");
    match &results[0] {
        Type::Sound(s) => {
            assert_eq!(Note::Space, s.sound.note);
            assert_eq!(Octave::Four, s.sound.octave);
            assert_eq!(Duration::Quarter, s.sound.duration);
        }
        other => panic!("expected a sound, got {:?}", other),
    }
}

#[test]
fn test_unknown_name_is_an_error() {
    let (results, _, _) = run("blorp;");
    match &results[0] {
        Type::Error(e) => assert_eq!("not found: `blorp`", e.msg),
        other => panic!("expected an error, got {:?}", other),
    }
}

#[test]
fn test_missing_duration_is_an_error() {
    let (results, _, _) = run("c_4;");
    match &results[0] {
        Type::Error(e) => assert_eq!("missing note duration", e.msg),
        other => panic!("expected an error, got {:?}", other),
    }
}

#[test]
fn test_division_by_zero_is_an_error() {
    let (results, _, _) = run("1 / 0;");
    match &results[0] {
        Type::Error(e) => assert_eq!("division by zero", e.msg),
        other => panic!("expected an error, got {:?}", other),
    }
}

#[test]
fn test_chord_inherits_octave_and_duration() {
    let (results, _, _) = run("c_4_4 + e;");
    match &results[0] {
        Type::Chord(ch) => {
            assert_eq!(2, ch.sounds.len());
            assert_eq!(Note::E, ch.sounds[1].sound.note);
            assert_eq!(Octave::Four, ch.sounds[1].sound.octave);
            assert_eq!(Duration::Quarter, ch.sounds[1].sound.duration);
            assert!(ch.sounds[1].modified);
            assert!(!ch.sounds[0].modified);
        }
        other => panic!("expected a chord, got {:?}", other),
    }
}

#[test]
fn test_vibrato_marks_every_sound() {
    let (results, _, _) = run("vib(2, 4, a_4_4, b);");
    match &results[0] {
        Type::Sounds(ss) => {
            assert_eq!(2, ss.chords.len());
            for i in 0..2 {
                let chord = &ss.chords[i];
                assert_eq!(1, chord.sounds.len());
                let effects = chord.sounds[0].sound.effects.as_ref().unwrap();
                assert_eq!(1, effects.len());
                match effects[0] {
                    Effect::Vibrato(v) => {
                        assert_eq!(4, v.depth);
                        assert_eq!(2, v.speed);
                    }
                }
            }
        }
        other => panic!("expected sounds, got {:?}", other),
    }
}

#[test]
fn test_vibrato_wrong_arity_is_rejected() {
    let (results, _, _) = run("vib(2, 4);");
    match &results[0] {
        Type::Error(e) => assert_eq!(
            "expecting at least 1 (note, sound, track), depth and phase for vibrato", e.msg),
        other => panic!("expected an error, got {:?}", other),
    }
}

#[test]
fn test_inspect_formats_values() {
    assert_eq!("42", Type::Int(42).inspect());
    assert_eq!("-42", Type::Int(-42).inspect());
    assert_eq!("Null", Type::Null.inspect());
}
