use soundbytes::interpreter::lexer::Lexer;
use soundbytes::interpreter::token::TokenType;

#[test]
fn test_next_token() {
    let input = "tempo(66);1+2;play(c#);play(c#_1_4);";
    let tokens_type: [TokenType; 19] = [
        TokenType::Ident,
        TokenType::Lparen,
        TokenType::Int,
        TokenType::Rparen,
        TokenType::Semicolon,
        TokenType::Int,
        TokenType::Plus,
        TokenType::Int,
        TokenType::Semicolon,
        TokenType::Ident,
        TokenType::Lparen,
        TokenType::Ident,
        TokenType::Rparen,
        TokenType::Semicolon,
        TokenType::Ident,
        TokenType::Lparen,
        TokenType::Ident,
        TokenType::Rparen,
        TokenType::Semicolon,
    ];
    let tokens_str: [&str; 19] = [
        "tempo", "(", "66", ")", ";", "1", "+", "2", ";", "play", "(", "c#", ")", ";", "play",
        "(", "c#_1_4", ")", ";",
    ];

    let mut lex = Lexer::new(input);

    for (key, token) in tokens_type.iter().enumerate() {
        let tok = lex.next_token();
        assert_eq!(token, &tok.ttype);
        assert_eq!(tokens_str[key], tok.literal);
    }
}

#[test]
fn test_next_token_play() {
    let input = "play(c#_1_4);";
    let tokens_type: [TokenType; 5] = [
        TokenType::Ident,
        TokenType::Lparen,
        TokenType::Ident,
        TokenType::Rparen,
        TokenType::Semicolon,
    ];
    let tokens_str: [&str; 5] = ["play", "(", "c#_1_4", ")", ";"];

    let mut lex = Lexer::new(input);

    for (key, token) in tokens_type.iter().enumerate() {
        let tok = lex.next_token();
        assert_eq!(token, &tok.ttype);
        assert_eq!(tokens_str[key], tok.literal);
    }
}

#[test]
fn test_multiline_expression() {
    let input = "play(c#_1_4,\n c#_1_4);";
    let tokens_type: [TokenType; 7] = [
        TokenType::Ident,
        TokenType::Lparen,
        TokenType::Ident,
        TokenType::Comma,
        TokenType::Ident,
        TokenType::Rparen,
        TokenType::Semicolon,
    ];
    let tokens_str: [&str; 7] = ["play", "(", "c#_1_4", ",", "c#_1_4", ")", ";"];

    let mut lex = Lexer::new(input);

    for (key, token) in tokens_type.iter().enumerate() {
        let tok = lex.next_token();
        assert_eq!(token, &tok.ttype);
        assert_eq!(tokens_str[key], tok.literal);
    }
}

#[test]
fn test_skip_comments() {
    let input = "
tempo(40);

//make multiline work
// set first octave and duration as defaults
// make multiple tracks playable simultaneously
// write intellij plugin
// imeplement + operator for notes



play(a_5_32,
a_4_32);";
    let mut lex = Lexer::new(input);

    let tok = lex.next_token();
    assert_eq!(TokenType::Ident, tok.ttype);
    assert_eq!("tempo", tok.literal);
    assert_eq!(1, tok.line);

    let tok = lex.next_token();
    assert_eq!(TokenType::Lparen, tok.ttype);
    assert_eq!(1, tok.line);

    let tok = lex.next_token();
    assert_eq!(TokenType::Int, tok.ttype);
    assert_eq!("40", tok.literal);
    assert_eq!(1, tok.line);

    let tok = lex.next_token();
    assert_eq!(TokenType::Rparen, tok.ttype);
    assert_eq!(1, tok.line);

    let tok = lex.next_token();
    assert_eq!(TokenType::Semicolon, tok.ttype);
    assert_eq!(1, tok.line);

    let tok = lex.next_token();
    assert_eq!(TokenType::Ident, tok.ttype);
    assert_eq!("play", tok.literal);
    assert_eq!(11, tok.line);
}

#[test]
fn test_assignment() {
    let input = "let foo = c_4_4;";
    let tokens_type: [TokenType; 5] = [
        TokenType::Let,
        TokenType::Ident,
        TokenType::Assign,
        TokenType::Ident,
        TokenType::Semicolon,
    ];
    let tokens_str: [&str; 5] = ["let", "foo", "=", "c_4_4", ";"];

    let mut lex = Lexer::new(input);

    for (key, token) in tokens_type.iter().enumerate() {
        let tok = lex.next_token();
        assert_eq!(token, &tok.ttype);
        assert_eq!(tokens_str[key], tok.literal);
    }
}

#[test]
fn test_lookup_ident_keywords() {
    assert_eq!(TokenType::Let, soundbytes::interpreter::token::lookup_ident("let"));
    assert_eq!(TokenType::Ident, soundbytes::interpreter::token::lookup_ident("play"));
}

#[test]
fn test_token_type_from_str() {
    assert_eq!(TokenType::Plus, TokenType::from_str("+"));
    assert_eq!(TokenType::Let, TokenType::from_str("let"));
    assert_eq!(TokenType::Illegal, TokenType::from_str("nonsense"));
}
