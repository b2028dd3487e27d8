use lox_rs::scanner::scan;
use lox_rs::token::Token;
use lox_rs::token_type::{Keyword, Literal, Operator, TokenType};

#[test]
fn sanity() {
    let input = b"null";
    let tokens: Vec<Token> = scan(input);
    assert_eq!(
        tokens,
        vec![
            Token::new(TokenType::Literal(Literal::Null), 0, 0),
            Token::new(TokenType::EndOfFile, 0, 0),
        ]
    );
}

#[test]
fn one_plus_one() {
    let input = b"1 + 1";
    let tokens: Vec<Token> = scan(input);
    assert_eq!(
        tokens,
        vec![
            Token::new(TokenType::Literal(Literal::Number(1.0f64.to_bits())), 0, 0),
            Token::new(TokenType::Operator(Operator::Add), 0, 0),
            Token::new(TokenType::Literal(Literal::Number(1.0f64.to_bits())), 0, 0),
            Token::new(TokenType::EndOfFile, 0, 0),
        ]
    );
}

#[test]
fn keywords_lex_whole_words() {
    let tokens = scan(b"while");
    assert_eq!(
        tokens,
        vec![
            Token::new(TokenType::Keyword(Keyword::While), 0, 0),
            Token::new(TokenType::EndOfFile, 0, 0),
        ]
    );
    let tokens = scan(b"whilex");
    assert_eq!(
        tokens,
        vec![
            Token::new(TokenType::Identifier(b"whilex".to_vec()), 0, 0),
            Token::new(TokenType::EndOfFile, 0, 0),
        ]
    );
}

#[test]
fn operator_longest_match() {
    let tokens = scan(b"!=");
    assert_eq!(
        tokens,
        vec![
            Token::new(TokenType::Operator(Operator::NotEq), 0, 0),
            Token::new(TokenType::EndOfFile, 0, 0),
        ]
    );
    let tokens = scan(b"! =");
    assert_eq!(
        tokens,
        vec![
            Token::new(TokenType::Operator(Operator::Not), 0, 0),
            Token::new(TokenType::Operator(Operator::Eq), 0, 0),
            Token::new(TokenType::EndOfFile, 0, 0),
        ]
    );
}

#[test]
fn strings_and_numbers() {
    let tokens = scan(b"'abc' 1_000.5");
    assert_eq!(
        tokens,
        vec![
            Token::new(TokenType::Literal(Literal::String(b"abc".to_vec())), 0, 0),
            Token::new(TokenType::Literal(Literal::Number(1000.5f64.to_bits())), 0, 0),
            Token::new(TokenType::EndOfFile, 0, 0),
        ]
    );
}
