use soundbytes::interpreter::ast::NodeType;
use soundbytes::interpreter::lexer::Lexer;
use soundbytes::interpreter::parser::{ParseErr, Parser};

#[test]
fn test_call_expression_parsing() {
    let input = "play(c#_1_4*, c#_4_4);";

    let lex = Lexer::new(input);
    let mut p = Parser::new(lex);
    let prog = p.parse_program();
    assert_eq!(1, prog.exprs.len());
    let expr = prog.exprs.first().unwrap();

    if let NodeType::CallExp(ce) = expr {
        assert_eq!(2, ce.args.len());
        let mut arg_iter = ce.args.iter();
        let arg = arg_iter.next().unwrap();

        if let NodeType::Ident(ident) = arg {
            assert_eq!("c#_1_4*", ident.value);
        }

        let arg = arg_iter.next().unwrap();

        if let NodeType::Ident(ident) = arg {
            assert_eq!("c#_4_4", ident.value);
            return;
        }
        panic!("expected ident arg got {:?}", arg);
    }
    panic!("expected call expression got {:?}", expr);
}

#[test]
fn test_int_literal_parsing() {
    let lex = Lexer::new("42;");
    let mut p = Parser::new(lex);
    let prog = p.parse_program();
    assert_eq!(1, prog.exprs.len());
    match prog.exprs.first().unwrap() {
        NodeType::IntLit(b) => assert_eq!(42, b.get_value()),
        other => panic!("expected integer literal, got {:?}", other),
    }
    assert_eq!(0, p.get_errors().len());
}

#[test]
fn test_illegal_prefix_records_error() {
    let lex = Lexer::new("5.5");
    let mut p = Parser::new(lex);
    let prog = p.parse_program();
    assert_eq!(2, prog.exprs.len());
    assert_eq!(1, p.get_errors().len());
    assert!(matches!(p.get_errors()[0], ParseErr::NoPrefix(_)));
}

#[test]
fn test_int_literal_overflow_records_error() {
    let lex = Lexer::new("99999999999999999999;");
    let mut p = Parser::new(lex);
    let _prog = p.parse_program();
    // The conversion failure is recorded, and the literal then has no
    // prefix parse either.
    assert_eq!(2, p.get_errors().len());
    match &p.get_errors()[0] {
        ParseErr::IntConv(lit) => assert_eq!("99999999999999999999", lit),
        other => panic!("expected an integer conversion error, got {:?}", other),
    }
    assert!(matches!(p.get_errors()[1], ParseErr::NoPrefix(_)));
}

#[test]
fn test_missing_rparen_records_peek_error() {
    let lex = Lexer::new("(5;");
    let mut p = Parser::new(lex);
    let _prog = p.parse_program();
    assert!(p.get_errors().len() >= 1);
    assert!(matches!(p.get_errors()[0], ParseErr::Peek(_, _)));
}

#[test]
fn test_missing_call_rparen_discards_arguments() {
    let lex = Lexer::new("play(c_4_4;");
    let mut p = Parser::new(lex);
    let prog = p.parse_program();
    assert_eq!(1, prog.exprs.len());
    match prog.exprs.first().unwrap() {
        NodeType::CallExp(ce) => assert_eq!(0, ce.args.len()),
        other => panic!("expected call expression got {:?}", other),
    }
    assert!(p.get_errors().len() >= 1);
    assert!(matches!(p.get_errors()[0], ParseErr::Peek(_, _)));
}

#[test]
fn test_operator_precedence_shape() {
    let lex = Lexer::new("1 - 2 * 4 + 3;");
    let mut p = Parser::new(lex);
    let prog = p.parse_program();
    assert_eq!(1, prog.exprs.len());
    // ((1 - (2 * 4)) + 3)
    assert_eq!("((1 - (2 * 4)) + 3)", prog.exprs[0].to_string());
}
