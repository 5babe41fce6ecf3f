use monkey_lexer::lexer::Lexer;
use monkey_lexer::token::Token;

/// Scans `input` to exhaustion and returns every token up to and including
/// the first end-of-input marker.
fn collect_tokens(input: &str) -> Vec<Token> {
    let mut lexer = Lexer::new(input);
    let mut tokens = Vec::new();
    loop {
        let token = lexer.next_token();
        let done = token == Token::EOF;
        tokens.push(token);
        if done {
            return tokens;
        }
    }
}

#[test]
fn test_next_token() {
    let input = "let five = 5;
let ten = 10;
   let add = fn(x, y) {
     x + y;
};
let result = add(five, ten);
!-/*5;
5 < 10 > 5;

if (5 < 10) {
       return true;
   } else {
       return false;
}

10 == 10;
10 != 9;
";

    let expected = vec![
        Token::Let,
        Token::Ident("five".to_string()),
        Token::Assign,
        Token::Int("5".to_string()),
        Token::Semicolon,
        Token::Let,
        Token::Ident("ten".to_string()),
        Token::Assign,
        Token::Int("10".to_string()),
        Token::Semicolon,
        Token::Let,
        Token::Ident("add".to_string()),
        Token::Assign,
        Token::Function,
        Token::LParen,
        Token::Ident("x".to_string()),
        Token::Comma,
        Token::Ident("y".to_string()),
        Token::RParen,
        Token::LBrace,
        Token::Ident("x".to_string()),
        Token::Plus,
        Token::Ident("y".to_string()),
        Token::Semicolon,
        Token::RBrace,
        Token::Semicolon,
        Token::Let,
        Token::Ident("result".to_string()),
        Token::Assign,
        Token::Ident("add".to_string()),
        Token::LParen,
        Token::Ident("five".to_string()),
        Token::Comma,
        Token::Ident("ten".to_string()),
        Token::RParen,
        Token::Semicolon,
        Token::Bang,
        Token::Minus,
        Token::Slash,
        Token::Asterisk,
        Token::Int("5".to_string()),
        Token::Semicolon,
        Token::Int("5".to_string()),
        Token::Lt,
        Token::Int("10".to_string()),
        Token::Gt,
        Token::Int("5".to_string()),
        Token::Semicolon,
        Token::If,
        Token::LParen,
        Token::Int("5".to_string()),
        Token::Lt,
        Token::Int("10".to_string()),
        Token::RParen,
        Token::LBrace,
        Token::Return,
        Token::Bool(true),
        Token::Semicolon,
        Token::RBrace,
        Token::Else,
        Token::LBrace,
        Token::Return,
        Token::Bool(false),
        Token::Semicolon,
        Token::RBrace,
        Token::Int("10".to_string()),
        Token::Eq,
        Token::Int("10".to_string()),
        Token::Semicolon,
        Token::Int("10".to_string()),
        Token::NotEq,
        Token::Int("9".to_string()),
        Token::Semicolon,
    ];

    let mut lexer = Lexer::new(input);
    for e in expected.iter() {
        let token = lexer.next_token();
        println!("{:?}", token);
        assert_eq!(e, &token, "Expected \"{:?}\" but got \"{:?}\"", e, token);
    }
}

#[test]
fn delimiters_and_assign() {
    let tokens = collect_tokens("=+(){},;");
    let expected = vec![
        Token::Assign,
        Token::Plus,
        Token::LParen,
        Token::RParen,
        Token::LBrace,
        Token::RBrace,
        Token::Comma,
        Token::Semicolon,
        Token::EOF,
    ];
    assert_eq!(tokens, expected);
}

#[test]
fn let_statement() {
    let tokens = collect_tokens("let five = 5;");
    let expected = vec![
        Token::Let,
        Token::Ident("five".to_string()),
        Token::Assign,
        Token::Int("5".to_string()),
        Token::Semicolon,
        Token::EOF,
    ];
    assert_eq!(tokens, expected);
}

#[test]
fn two_char_operators() {
    let tokens = collect_tokens("10 == 10; 10 != 9;");
    let expected = vec![
        Token::Int("10".to_string()),
        Token::Eq,
        Token::Int("10".to_string()),
        Token::Semicolon,
        Token::Int("10".to_string()),
        Token::NotEq,
        Token::Int("9".to_string()),
        Token::Semicolon,
        Token::EOF,
    ];
    assert_eq!(tokens, expected);
}

#[test]
fn if_else_with_booleans() {
    let tokens = collect_tokens("if (5 < 10) { return true; } else { return false; }");
    let expected = vec![
        Token::If,
        Token::LParen,
        Token::Int("5".to_string()),
        Token::Lt,
        Token::Int("10".to_string()),
        Token::RParen,
        Token::LBrace,
        Token::Return,
        Token::Bool(true),
        Token::Semicolon,
        Token::RBrace,
        Token::Else,
        Token::LBrace,
        Token::Return,
        Token::Bool(false),
        Token::Semicolon,
        Token::RBrace,
        Token::EOF,
    ];
    assert_eq!(tokens, expected);
}

#[test]
fn unrecognized_character_is_illegal() {
    let tokens = collect_tokens("@");
    assert_eq!(tokens, vec![Token::Illegal, Token::EOF]);
}

#[test]
fn every_unrecognized_character_maps_to_illegal() {
    let tokens = collect_tokens("#$@");
    assert_eq!(
        tokens,
        vec![Token::Illegal, Token::Illegal, Token::Illegal, Token::EOF]
    );
}

#[test]
fn empty_input_is_end_of_input() {
    let tokens = collect_tokens("");
    assert_eq!(tokens, vec![Token::EOF]);
}

#[test]
fn end_of_input_is_terminal() {
    let mut lexer = Lexer::new("+");
    assert_eq!(lexer.next_token(), Token::Plus);
    assert_eq!(lexer.next_token(), Token::EOF);
    assert_eq!(lexer.next_token(), Token::EOF);
    assert_eq!(lexer.next_token(), Token::EOF);
}

#[test]
fn whitespace_only_input_emits_nothing() {
    let tokens = collect_tokens(" \t\r\n  \n");
    assert_eq!(tokens, vec![Token::EOF]);
}

#[test]
fn whitespace_does_not_change_the_tokens() {
    let dense = collect_tokens("let x=5;");
    let spread = collect_tokens("  let\tx \n=  5\r;  ");
    assert_eq!(dense, spread);
}

#[test]
fn digit_run_is_maximal_not_a_prefix() {
    let tokens = collect_tokens("123abc 45 6");
    let expected = vec![
        Token::Int("123".to_string()),
        Token::Ident("abc".to_string()),
        Token::Int("45".to_string()),
        Token::Int("6".to_string()),
        Token::EOF,
    ];
    assert_eq!(tokens, expected);
}

#[test]
fn keywords_are_recognized_exactly() {
    let tokens = collect_tokens("fn let true false if else return");
    let expected = vec![
        Token::Function,
        Token::Let,
        Token::Bool(true),
        Token::Bool(false),
        Token::If,
        Token::Else,
        Token::Return,
        Token::EOF,
    ];
    assert_eq!(tokens, expected);
}

#[test]
fn near_keywords_are_identifiers() {
    let tokens = collect_tokens("lets fnx truthy returns");
    let expected = vec![
        Token::Ident("lets".to_string()),
        Token::Ident("fnx".to_string()),
        Token::Ident("truthy".to_string()),
        Token::Ident("returns".to_string()),
        Token::EOF,
    ];
    assert_eq!(tokens, expected);
}

#[test]
fn underscore_is_an_identifier_character() {
    let tokens = collect_tokens("foo_bar _start");
    let expected = vec![
        Token::Ident("foo_bar".to_string()),
        Token::Ident("_start".to_string()),
        Token::EOF,
    ];
    assert_eq!(tokens, expected);
}

#[test]
fn equal_is_matched_greedily() {
    assert_eq!(collect_tokens("=="), vec![Token::Eq, Token::EOF]);
    assert_eq!(
        collect_tokens("= ="),
        vec![Token::Assign, Token::Assign, Token::EOF]
    );
    assert_eq!(collect_tokens("!="), vec![Token::NotEq, Token::EOF]);
    assert_eq!(
        collect_tokens("! ="),
        vec![Token::Bang, Token::Assign, Token::EOF]
    );
    assert_eq!(
        collect_tokens("==="),
        vec![Token::Eq, Token::Assign, Token::EOF]
    );
}

#[test]
fn single_char_operators() {
    let tokens = collect_tokens("!-/*<>");
    let expected = vec![
        Token::Bang,
        Token::Minus,
        Token::Slash,
        Token::Asterisk,
        Token::Lt,
        Token::Gt,
        Token::EOF,
    ];
    assert_eq!(tokens, expected);
}

#[test]
fn trailing_equal_is_assign() {
    assert_eq!(collect_tokens("="), vec![Token::Assign, Token::EOF]);
    assert_eq!(collect_tokens("!"), vec![Token::Bang, Token::EOF]);
}

#[test]
fn tokens_matches_the_consumer_loop() {
    let inputs = ["", "let five = 5;", "=+(){},;", "@ 12ab ==", " \t\n"];
    for input in inputs {
        assert_eq!(monkey_lexer::lexer::tokens(input), collect_tokens(input));
    }
}

#[test]
fn tokens_render_for_diagnostics() {
    assert_eq!(Token::Ident("five".to_string()).text(), "Ident(five)");
    assert_eq!(Token::Int("10".to_string()).text(), "Int(10)");
    assert_eq!(Token::Bool(true).text(), "Bool(true)");
    assert_eq!(Token::Bool(false).text(), "Bool(false)");
    assert_eq!(Token::Assign.text(), "Assign");
    assert_eq!(Token::NotEq.text(), "NotEq");
    assert_eq!(Token::EOF.text(), "EOF");
    assert_eq!(Token::Illegal.text(), "Illegal");
}

#[test]
fn lookup_ident_resolves_keywords() {
    assert_eq!(Token::lookup_ident("fn"), Token::Function);
    assert_eq!(Token::lookup_ident("let"), Token::Let);
    assert_eq!(Token::lookup_ident("true"), Token::Bool(true));
    assert_eq!(Token::lookup_ident("false"), Token::Bool(false));
    assert_eq!(Token::lookup_ident("if"), Token::If);
    assert_eq!(Token::lookup_ident("else"), Token::Else);
    assert_eq!(Token::lookup_ident("return"), Token::Return);
    assert_eq!(
        Token::lookup_ident("banana"),
        Token::Ident("banana".to_string())
    );
    assert_eq!(Token::lookup_ident("Let"), Token::Ident("Let".to_string()));
}
