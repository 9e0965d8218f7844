use safelang::lexer::Lexer;
use safelang::lexer::TokenType;
use safelang::token_stream;

#[test]
fn test_lexer_simple() {
    let source = "let x = 5;";
    let mut lexer = Lexer::new(source.to_string());
    let tokens = lexer.scan_tokens();

    assert_eq!(tokens[0].token_type, TokenType::Let);
    assert_eq!(tokens[1].token_type, TokenType::Identifier);
    assert_eq!(tokens[2].token_type, TokenType::Equal);
    assert_eq!(tokens[3].token_type, TokenType::Number);
    assert_eq!(tokens[4].token_type, TokenType::Semicolon);
    assert_eq!(tokens[5].token_type, TokenType::EOF);
}

#[test]
fn test_lexer_function() {
    let source = "fn add(a: num, b: num) -> num { return a + b; }";
    let mut lexer = Lexer::new(source.to_string());
    let tokens = lexer.scan_tokens();

    assert_eq!(tokens[0].token_type, TokenType::Fn);
    assert_eq!(tokens[1].token_type, TokenType::Identifier); // add
    assert_eq!(tokens[2].token_type, TokenType::LeftParen);
    assert_eq!(tokens[3].token_type, TokenType::Identifier); // a
    assert_eq!(tokens[4].token_type, TokenType::Colon);
    assert_eq!(tokens[5].token_type, TokenType::Identifier); // num
    assert_eq!(tokens[6].token_type, TokenType::Comma);
    // ... and so on
}

#[test]
fn test_basic_tokens() {
    let input = "fn main() { let x = 42; }";
    let mut lexer = token_stream::Lexer::new(input);
    assert_eq!(
        lexer.next_token(),
        Some(token_stream::Token::Keyword("fn".into()))
    );
    assert_eq!(
        lexer.next_token(),
        Some(token_stream::Token::Ident("main".into()))
    );
    // ... more test cases ...
}

#[test]
fn test_lexer_lexemes_and_positions() {
    let source = "let x = 5;";
    let mut lexer = Lexer::new(source.to_string());
    let tokens = lexer.scan_tokens();

    assert_eq!(tokens[0].lexeme, "let");
    assert_eq!(tokens[1].lexeme, "x");
    assert_eq!(tokens[3].lexeme, "5");
    assert_eq!(tokens[0].line, 1);
    assert_eq!(tokens[0].column, 1);
    assert_eq!(tokens[1].column, 5);
}

#[test]
fn test_lexer_operators_and_comments() {
    let source = "a == b != c <= d >= e -> f // trailing comment\ng";
    let mut lexer = Lexer::new(source.to_string());
    let tokens = lexer.scan_tokens();
    let kinds: Vec<TokenType> = tokens.iter().map(|t| t.token_type).collect();
    assert_eq!(
        kinds,
        vec![
            TokenType::Identifier,
            TokenType::EqualEqual,
            TokenType::Identifier,
            TokenType::NotEqual,
            TokenType::Identifier,
            TokenType::LessEqual,
            TokenType::Identifier,
            TokenType::GreaterEqual,
            TokenType::Identifier,
            TokenType::Arrow,
            TokenType::Identifier,
            TokenType::Identifier,
            TokenType::EOF,
        ]
    );
}

#[test]
fn test_lexer_string_and_errors() {
    let source = "\"hello\" @";
    let mut lexer = Lexer::new(source.to_string());
    let tokens = lexer.scan_tokens();
    assert_eq!(tokens[0].token_type, TokenType::String);
    assert_eq!(tokens[0].lexeme, "\"hello\"");
    assert_eq!(tokens[1].token_type, TokenType::Error);
    assert_eq!(tokens[1].lexeme, "Unexpected character: @");
    assert_eq!(tokens[2].token_type, TokenType::EOF);

    let mut unterminated = Lexer::new("\"oops".to_string());
    let tokens = unterminated.scan_tokens();
    assert_eq!(tokens[0].token_type, TokenType::Error);
}

#[test]
fn test_token_stream_kinds() {
    let mut lexer = token_stream::Lexer::new("x1 = 42 ;");
    assert_eq!(
        lexer.next_token(),
        Some(token_stream::Token::Ident("x1".into()))
    );
    assert_eq!(
        lexer.next_token(),
        Some(token_stream::Token::Symbol("=".into()))
    );
    assert_eq!(
        lexer.next_token(),
        Some(token_stream::Token::Number("42".into()))
    );
    assert_eq!(
        lexer.next_token(),
        Some(token_stream::Token::Symbol(";".into()))
    );
    assert_eq!(lexer.next_token(), None);
    assert_eq!(lexer.next_token(), None);
}
