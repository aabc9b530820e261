use rlox::ast::{AstType, Parser};
use rlox::token::{Token, TokenType};

#[test]
fn terminal_parse() {
    let tokens = vec![
        Token::new(TokenType::Number(1), None, 0, 0),
        Token::new(TokenType::SemiColon, None, 0, 0),
    ];
    let mut parser = Parser::new(&tokens);
    assert_eq!(AstType::Number(1), parser.program()[0]);

    let tokens = vec![
        Token::new(TokenType::String(String::from("test")), None, 0, 0),
        Token::new(TokenType::SemiColon, None, 0, 0),
    ];
    let mut parser = Parser::new(&tokens);
    assert_eq!(AstType::String(String::from("test")), parser.program()[0]);

    let tokens = vec![
        Token::new(TokenType::True, None, 0, 0),
        Token::new(TokenType::SemiColon, None, 0, 0),
    ];
    let mut parser = Parser::new(&tokens);
    assert_eq!(AstType::True, parser.program()[0]);

    let tokens = vec![
        Token::new(TokenType::False, None, 0, 0),
        Token::new(TokenType::SemiColon, None, 0, 0),
    ];
    let mut parser = Parser::new(&tokens);
    assert_eq!(AstType::False, parser.program()[0]);

    let tokens = vec![
        Token::new(TokenType::Nil, None, 0, 0),
        Token::new(TokenType::SemiColon, None, 0, 0),
    ];
    let mut parser = Parser::new(&tokens);
    assert_eq!(AstType::Nil, parser.program()[0]);
}

#[test]
fn grouping_parse() {
    let tokens = vec![
        Token::new(TokenType::LeftParen, None, 0, 0),
        Token::new(TokenType::Number(1), None, 0, 0),
        Token::new(TokenType::RightParen, None, 0, 0),
        Token::new(TokenType::SemiColon, None, 0, 0),
    ];
    let mut parser = Parser::new(&tokens);
    assert_eq!(
        AstType::Grouping(Box::new(AstType::Number(1))),
        parser.program()[0]
    );
}

#[test]
fn unary_parse() {
    let tokens = vec![
        Token::new(TokenType::Bang, None, 0, 0),
        Token::new(TokenType::Number(1), None, 0, 0),
        Token::new(TokenType::SemiColon, None, 0, 0),
    ];
    let mut parser = Parser::new(&tokens);
    assert_eq!(
        AstType::Bang(Box::new(AstType::Number(1))),
        parser.program()[0]
    );
    let tokens = vec![
        Token::new(TokenType::Minus, None, 0, 0),
        Token::new(TokenType::Number(1), None, 0, 0),
        Token::new(TokenType::SemiColon, None, 0, 0),
    ];
    let mut parser = Parser::new(&tokens);
    assert_eq!(
        AstType::UnaryMinus(Box::new(AstType::Number(1))),
        parser.program()[0]
    );
}

#[test]
fn factor_parse() {
    let tokens = vec![
        Token::new(TokenType::Number(2), None, 0, 0),
        Token::new(TokenType::Slash, None, 0, 0),
        Token::new(TokenType::Number(1), None, 0, 0),
        Token::new(TokenType::SemiColon, None, 0, 0),
    ];
    let mut parser = Parser::new(&tokens);
    assert_eq!(
        AstType::Div(Box::new(AstType::Number(2)), Box::new(AstType::Number(1))),
        parser.program()[0]
    );

    let tokens = vec![
        Token::new(TokenType::Number(2), None, 0, 0),
        Token::new(TokenType::Star, None, 0, 0),
        Token::new(TokenType::Number(1), None, 0, 0),
        Token::new(TokenType::SemiColon, None, 0, 0),
    ];
    let mut parser = Parser::new(&tokens);
    assert_eq!(
        AstType::Mul(Box::new(AstType::Number(2)), Box::new(AstType::Number(1))),
        parser.program()[0]
    );

    let tokens = vec![
        Token::new(TokenType::Number(2), None, 0, 0),
        Token::new(TokenType::Star, None, 0, 0),
        Token::new(TokenType::Number(3), None, 0, 0),
        Token::new(TokenType::Slash, None, 0, 0),
        Token::new(TokenType::Number(1), None, 0, 0),
        Token::new(TokenType::SemiColon, None, 0, 0),
    ];
    let mut parser = Parser::new(&tokens);
    assert_eq!(
        AstType::Div(
            Box::new(AstType::Mul(
                Box::new(AstType::Number(2)),
                Box::new(AstType::Number(3))
            )),
            Box::new(AstType::Number(1)),
        ),
        parser.program()[0]
    );
}

#[test]
fn term_parse() {
    let tokens = vec![
        Token::new(TokenType::String(String::from("a")), None, 0, 0),
        Token::new(TokenType::Plus, None, 0, 0),
        Token::new(TokenType::String(String::from("b")), None, 0, 0),
        Token::new(TokenType::SemiColon, None, 0, 0),
    ];
    let mut parser = Parser::new(&tokens);
    assert_eq!(
        AstType::Plus(
            Box::new(AstType::String(String::from("a"))),
            Box::new(AstType::String(String::from("b")))
        ),
        parser.program()[0]
    );

    let tokens = vec![
        Token::new(TokenType::Number(2), None, 0, 0),
        Token::new(TokenType::Plus, None, 0, 0),
        Token::new(TokenType::Number(1), None, 0, 0),
        Token::new(TokenType::SemiColon, None, 0, 0),
    ];
    let mut parser = Parser::new(&tokens);
    assert_eq!(
        AstType::Plus(Box::new(AstType::Number(2)), Box::new(AstType::Number(1))),
        parser.program()[0]
    );

    let tokens = vec![
        Token::new(TokenType::Number(2), None, 0, 0),
        Token::new(TokenType::Minus, None, 0, 0),
        Token::new(TokenType::Number(1), None, 0, 0),
        Token::new(TokenType::SemiColon, None, 0, 0),
    ];
    let mut parser = Parser::new(&tokens);
    assert_eq!(
        AstType::Minus(Box::new(AstType::Number(2)), Box::new(AstType::Number(1))),
        parser.program()[0]
    );

    let tokens = vec![
        Token::new(TokenType::Number(2), None, 0, 0),
        Token::new(TokenType::Plus, None, 0, 0),
        Token::new(TokenType::Number(3), None, 0, 0),
        Token::new(TokenType::Minus, None, 0, 0),
        Token::new(TokenType::Number(1), None, 0, 0),
        Token::new(TokenType::SemiColon, None, 0, 0),
    ];
    let mut parser = Parser::new(&tokens);
    assert_eq!(
        AstType::Minus(
            Box::new(AstType::Plus(
                Box::new(AstType::Number(2)),
                Box::new(AstType::Number(3))
            )),
            Box::new(AstType::Number(1)),
        ),
        parser.program()[0]
    );

    let tokens = vec![
        Token::new(TokenType::Number(10), None, 0, 0),
        Token::new(TokenType::Minus, None, 0, 0),
        Token::new(TokenType::Number(3), None, 0, 0),
        Token::new(TokenType::Minus, None, 0, 0),
        Token::new(TokenType::Number(1), None, 0, 0),
        Token::new(TokenType::SemiColon, None, 0, 0),
    ];
    let mut parser = Parser::new(&tokens);
    assert_eq!(
        AstType::Minus(
            Box::new(AstType::Minus(
                Box::new(AstType::Number(10)),
                Box::new(AstType::Number(3))
            )),
            Box::new(AstType::Number(1)),
        ),
        parser.program()[0]
    );
}

#[test]
fn mixed_arithmetic_parse() {
    let tokens = vec![
        Token::new(TokenType::Number(2), None, 0, 0),
        Token::new(TokenType::Plus, None, 0, 0),
        Token::new(TokenType::Number(3), None, 0, 0),
        Token::new(TokenType::Star, None, 0, 0),
        Token::new(TokenType::Number(1), None, 0, 0),
        Token::new(TokenType::SemiColon, None, 0, 0),
    ];
    let mut parser = Parser::new(&tokens);
    assert_eq!(
        AstType::Plus(
            Box::new(AstType::Number(2)),
            Box::new(AstType::Mul(
                Box::new(AstType::Number(3)),
                Box::new(AstType::Number(1)),
            ))
        ),
        parser.program()[0]
    );

    let tokens = vec![
        Token::new(TokenType::Number(2), None, 0, 0),
        Token::new(TokenType::Slash, None, 0, 0),
        Token::new(TokenType::Number(3), None, 0, 0),
        Token::new(TokenType::Minus, None, 0, 0),
        Token::new(TokenType::Number(1), None, 0, 0),
        Token::new(TokenType::SemiColon, None, 0, 0),
    ];
    let mut parser = Parser::new(&tokens);
    assert_eq!(
        AstType::Minus(
            Box::new(AstType::Div(
                Box::new(AstType::Number(2)),
                Box::new(AstType::Number(3)),
            )),
            Box::new(AstType::Number(1)),
        ),
        parser.program()[0]
    );
}

#[test]
fn comparison_parse() {
    let tokens = vec![
        Token::new(TokenType::Number(2), None, 0, 0),
        Token::new(TokenType::Greater, None, 0, 0),
        Token::new(TokenType::Number(1), None, 0, 0),
        Token::new(TokenType::SemiColon, None, 0, 0),
    ];
    let mut parser = Parser::new(&tokens);
    assert_eq!(
        AstType::Greater(Box::new(AstType::Number(2)), Box::new(AstType::Number(1))),
        parser.program()[0]
    );

    let tokens = vec![
        Token::new(TokenType::Number(2), None, 0, 0),
        Token::new(TokenType::GreaterEqual, None, 0, 0),
        Token::new(TokenType::Number(1), None, 0, 0),
        Token::new(TokenType::SemiColon, None, 0, 0),
    ];
    let mut parser = Parser::new(&tokens);
    assert_eq!(
        AstType::GreaterEqual(Box::new(AstType::Number(2)), Box::new(AstType::Number(1))),
        parser.program()[0]
    );

    let tokens = vec![
        Token::new(TokenType::Number(2), None, 0, 0),
        Token::new(TokenType::Less, None, 0, 0),
        Token::new(TokenType::Number(1), None, 0, 0),
        Token::new(TokenType::SemiColon, None, 0, 0),
    ];
    let mut parser = Parser::new(&tokens);
    assert_eq!(
        AstType::Less(Box::new(AstType::Number(2)), Box::new(AstType::Number(1))),
        parser.program()[0]
    );

    let tokens = vec![
        Token::new(TokenType::Number(2), None, 0, 0),
        Token::new(TokenType::LessEqual, None, 0, 0),
        Token::new(TokenType::Number(1), None, 0, 0),
        Token::new(TokenType::SemiColon, None, 0, 0),
    ];
    let mut parser = Parser::new(&tokens);
    assert_eq!(
        AstType::LessEqual(Box::new(AstType::Number(2)), Box::new(AstType::Number(1))),
        parser.program()[0]
    );

    let tokens = vec![
        Token::new(TokenType::Number(2), None, 0, 0),
        Token::new(TokenType::Plus, None, 0, 0),
        Token::new(TokenType::Number(1), None, 0, 0),
        Token::new(TokenType::Greater, None, 0, 0),
        Token::new(TokenType::Number(3), None, 0, 0),
        Token::new(TokenType::Star, None, 0, 0),
        Token::new(TokenType::Number(4), None, 0, 0),
        Token::new(TokenType::SemiColon, None, 0, 0),
    ];
    let mut parser = Parser::new(&tokens);
    assert_eq!(
        AstType::Greater(
            Box::new(AstType::Plus(
                Box::new(AstType::Number(2)),
                Box::new(AstType::Number(1))
            )),
            Box::new(AstType::Mul(
                Box::new(AstType::Number(3)),
                Box::new(AstType::Number(4))
            )),
        ),
        parser.program()[0]
    );
}

#[test]
fn equality_parse() {
    let tokens = vec![
        Token::new(TokenType::Number(2), None, 0, 0),
        Token::new(TokenType::EqualEqual, None, 0, 0),
        Token::new(TokenType::Number(1), None, 0, 0),
        Token::new(TokenType::SemiColon, None, 0, 0),
    ];
    let mut parser = Parser::new(&tokens);
    assert_eq!(
        AstType::EqualEqual(Box::new(AstType::Number(2)), Box::new(AstType::Number(1))),
        parser.program()[0]
    );

    let tokens = vec![
        Token::new(TokenType::Number(2), None, 0, 0),
        Token::new(TokenType::BangEqual, None, 0, 0),
        Token::new(TokenType::Number(1), None, 0, 0),
        Token::new(TokenType::SemiColon, None, 0, 0),
    ];
    let mut parser = Parser::new(&tokens);
    assert_eq!(
        AstType::BangEqual(Box::new(AstType::Number(2)), Box::new(AstType::Number(1))),
        parser.program()[0]
    );

    let tokens = vec![
        Token::new(TokenType::Number(2), None, 0, 0),
        Token::new(TokenType::Plus, None, 0, 0),
        Token::new(TokenType::Number(1), None, 0, 0),
        Token::new(TokenType::EqualEqual, None, 0, 0),
        Token::new(TokenType::Number(3), None, 0, 0),
        Token::new(TokenType::Star, None, 0, 0),
        Token::new(TokenType::Number(4), None, 0, 0),
        Token::new(TokenType::SemiColon, None, 0, 0),
    ];
    let mut parser = Parser::new(&tokens);
    assert_eq!(
        AstType::EqualEqual(
            Box::new(AstType::Plus(
                Box::new(AstType::Number(2)),
                Box::new(AstType::Number(1))
            )),
            Box::new(AstType::Mul(
                Box::new(AstType::Number(3)),
                Box::new(AstType::Number(4))
            )),
        ),
        parser.program()[0]
    );
}

#[test]
fn synchronize() {
    let tokens = vec![
        Token::new(TokenType::LeftParen, None, 0, 0),
        Token::new(TokenType::Number(1), None, 0, 0),
        Token::new(TokenType::SemiColon, None, 0, 0),
        Token::new(TokenType::Number(8), None, 0, 0),
        Token::new(TokenType::SemiColon, None, 0, 0),
    ];
    let mut parser = Parser::new(&tokens);

    // the malformed opening statement is skipped by recovery
    assert_eq!(AstType::Number(8), parser.program()[0]);
}

#[test]
fn multiline_parse() {
    let tokens = vec![
        Token::new(TokenType::Number(1), None, 0, 0),
        Token::new(TokenType::SemiColon, None, 1, 0),
        Token::new(TokenType::Number(2), None, 2, 0),
        Token::new(TokenType::SemiColon, None, 1, 0),
    ];
    let mut parser = Parser::new(&tokens);
    let result = parser.program();
    assert_eq!(AstType::Number(1), result[0]);
    assert_eq!(AstType::Number(2), result[1]);
}

#[test]
fn missing_semicolon_parse() {
    let tokens = vec![Token::new(TokenType::Number(1), None, 0, 0)];
    let mut parser = Parser::new(&tokens);
    let result = parser.program();
    assert_eq!(0, result.len());
}

#[test]
fn print_parse() {
    let tokens = vec![
        Token::new(TokenType::Print, None, 0, 0),
        Token::new(TokenType::String(String::from("test")), None, 1, 0),
        Token::new(TokenType::SemiColon, None, 2, 0),
    ];
    let mut parser = Parser::new(&tokens);
    assert_eq!(
        AstType::Print(Box::new(AstType::String(String::from("test")))),
        parser.program()[0]
    );
}

#[test]
fn identifier_parse() {
    let tokens = vec![
        Token::new(TokenType::Var, None, 0, 0),
        Token::new(TokenType::Identifier(String::from("test")), None, 0, 0),
        Token::new(TokenType::Equal, None, 0, 0),
        Token::new(TokenType::Number(2), None, 0, 0),
        Token::new(TokenType::SemiColon, None, 0, 0),
    ];
    let mut parser = Parser::new(&tokens);
    assert_eq!(
        AstType::Var(String::from("test"), Box::new(AstType::Number(2))),
        parser.program()[0]
    );

    let tokens = vec![
        Token::new(TokenType::Var, None, 0, 0),
        Token::new(TokenType::Identifier(String::from("test")), None, 0, 0),
        Token::new(TokenType::Equal, None, 0, 0),
        Token::new(TokenType::String("Hello".to_owned()), None, 0, 0),
        Token::new(TokenType::SemiColon, None, 0, 0),
    ];
    let mut parser = Parser::new(&tokens);
    assert_eq!(
        AstType::Var(
            String::from("test"),
            Box::new(AstType::String("Hello".to_owned()))
        ),
        parser.program()[0]
    );

    let tokens = vec![
        Token::new(TokenType::Var, None, 0, 0),
        Token::new(TokenType::Identifier(String::from("test")), None, 0, 0),
        Token::new(TokenType::Equal, None, 0, 0),
        Token::new(TokenType::Number(2), None, 0, 0),
        Token::new(TokenType::Plus, None, 0, 0),
        Token::new(TokenType::Number(3), None, 0, 0),
        Token::new(TokenType::SemiColon, None, 0, 0),
    ];
    let mut parser = Parser::new(&tokens);
    assert_eq!(
        AstType::Var(
            String::from("test"),
            Box::new(AstType::Plus(
                Box::new(AstType::Number(2)),
                Box::new(AstType::Number(3)),
            ))
        ),
        parser.program()[0]
    );

    let tokens = vec![
        Token::new(TokenType::Var, None, 0, 0),
        Token::new(TokenType::Identifier(String::from("a")), None, 0, 0),
        Token::new(TokenType::Equal, None, 0, 0),
        Token::new(TokenType::Number(2), None, 0, 0),
        Token::new(TokenType::SemiColon, None, 0, 0),
        Token::new(TokenType::Print, None, 0, 0),
        Token::new(TokenType::Identifier("a".to_string()), None, 0, 0),
        Token::new(TokenType::SemiColon, None, 0, 0),
    ];
    let mut parser = Parser::new(&tokens);
    let result = parser.program();
    assert_eq!(
        AstType::Var(String::from("a"), Box::new(AstType::Number(2))),
        result[0]
    );
    assert_eq!(
        AstType::Print(Box::new(AstType::Identifier("a".to_string()))),
        result[1]
    );
}

#[test]
fn assign_parse() {
    let tokens = vec![
        Token::new(TokenType::Identifier("test".to_string()), None, 0, 0),
        Token::new(TokenType::Equal, None, 0, 0),
        Token::new(TokenType::Number(1), None, 0, 0),
        Token::new(TokenType::SemiColon, None, 0, 0),
    ];
    let mut parser = Parser::new(&tokens);
    assert_eq!(
        AstType::Assign(String::from("test"), Box::new(AstType::Number(1))),
        parser.program()[0]
    );

    let tokens = vec![
        Token::new(TokenType::Identifier("test".to_string()), None, 0, 0),
        Token::new(TokenType::Equal, None, 0, 0),
        Token::new(TokenType::Number(1), None, 0, 0),
        Token::new(TokenType::Plus, None, 0, 0),
        Token::new(TokenType::Number(2), None, 0, 0),
        Token::new(TokenType::SemiColon, None, 0, 0),
    ];
    let mut parser = Parser::new(&tokens);
    assert_eq!(
        AstType::Assign(
            String::from("test"),
            Box::new(AstType::Plus(
                Box::new(AstType::Number(1)),
                Box::new(AstType::Number(2))
            ))
        ),
        parser.program()[0]
    );
}

#[test]
fn block_parse() {
    let tokens = vec![
        Token::new(TokenType::LeftBrace, None, 0, 0),
        Token::new(TokenType::Identifier("test".to_string()), None, 0, 0),
        Token::new(TokenType::Equal, None, 0, 0),
        Token::new(TokenType::Number(1), None, 0, 0),
        Token::new(TokenType::SemiColon, None, 0, 0),
        Token::new(TokenType::RightBrace, None, 0, 0),
    ];
    let mut parser = Parser::new(&tokens);
    assert_eq!(
        AstType::Block(vec![AstType::Assign(
            String::from("test"),
            Box::new(AstType::Number(1))
        ),]),
        parser.program()[0]
    );
}

#[test]
fn if_parse() {
    let tokens = vec![
        Token::new(TokenType::If, None, 0, 0),
        Token::new(TokenType::LeftParen, None, 0, 0),
        Token::new(TokenType::Number(1), None, 0, 0),
        Token::new(TokenType::RightParen, None, 0, 0),
        Token::new(TokenType::Number(2), None, 0, 0),
        Token::new(TokenType::SemiColon, None, 0, 0),
        Token::new(TokenType::Else, None, 0, 0),
        Token::new(TokenType::Number(3), None, 0, 0),
        Token::new(TokenType::SemiColon, None, 0, 0),
    ];
    let mut parser = Parser::new(&tokens);
    assert_eq!(
        AstType::If(
            Box::new(AstType::Number(1)),
            Box::new(AstType::Number(2)),
            Box::new(AstType::Number(3)),
        ),
        parser.program()[0]
    );

    let tokens = vec![
        Token::new(TokenType::If, None, 0, 0),
        Token::new(TokenType::LeftParen, None, 0, 0),
        Token::new(TokenType::Number(1), None, 0, 0),
        Token::new(TokenType::RightParen, None, 0, 0),
        Token::new(TokenType::Number(2), None, 0, 0),
        Token::new(TokenType::SemiColon, None, 0, 0),
    ];
    let mut parser = Parser::new(&tokens);
    assert_eq!(
        AstType::If(
            Box::new(AstType::Number(1)),
            Box::new(AstType::Number(2)),
            Box::new(AstType::Nil),
        ),
        parser.program()[0]
    );

    let tokens = vec![
        Token::new(TokenType::If, None, 0, 0),
        Token::new(TokenType::LeftParen, None, 0, 0),
        Token::new(TokenType::Number(1), None, 0, 0),
        Token::new(TokenType::Less, None, 0, 0),
        Token::new(TokenType::Number(2), None, 0, 0),
        Token::new(TokenType::RightParen, None, 0, 0),
        Token::new(TokenType::Number(3), None, 0, 0),
        Token::new(TokenType::SemiColon, None, 0, 0),
    ];
    let mut parser = Parser::new(&tokens);
    assert_eq!(
        AstType::If(
            Box::new(AstType::Less(
                Box::new(AstType::Number(1)),
                Box::new(AstType::Number(2)),
            )),
            Box::new(AstType::Number(3)),
            Box::new(AstType::Nil),
        ),
        parser.program()[0]
    );
}

#[test]
fn or_parse() {
    let tokens = vec![
        Token::new(TokenType::Number(1), None, 0, 0),
        Token::new(TokenType::Or, None, 0, 0),
        Token::new(TokenType::Number(2), None, 0, 0),
        Token::new(TokenType::SemiColon, None, 0, 0),
    ];
    let mut parser = Parser::new(&tokens);
    assert_eq!(
        AstType::Or(Box::new(AstType::Number(1)), Box::new(AstType::Number(2)),),
        parser.program()[0]
    );

    let tokens = vec![
        Token::new(TokenType::Number(1), None, 0, 0),
        Token::new(TokenType::Or, None, 0, 0),
        Token::new(TokenType::Number(2), None, 0, 0),
        Token::new(TokenType::Or, None, 0, 0),
        Token::new(TokenType::Number(3), None, 0, 0),
        Token::new(TokenType::SemiColon, None, 0, 0),
    ];
    let mut parser = Parser::new(&tokens);
    assert_eq!(
        AstType::Or(
            Box::new(AstType::Or(
                Box::new(AstType::Number(1)),
                Box::new(AstType::Number(2)),
            )),
            Box::new(AstType::Number(3)),
        ),
        parser.program()[0]
    );
}

#[test]
fn and_parse() {
    let tokens = vec![
        Token::new(TokenType::Number(1), None, 0, 0),
        Token::new(TokenType::And, None, 0, 0),
        Token::new(TokenType::Number(2), None, 0, 0),
        Token::new(TokenType::SemiColon, None, 0, 0),
    ];
    let mut parser = Parser::new(&tokens);
    assert_eq!(
        AstType::And(Box::new(AstType::Number(1)), Box::new(AstType::Number(2)),),
        parser.program()[0]
    );

    let tokens = vec![
        Token::new(TokenType::Number(1), None, 0, 0),
        Token::new(TokenType::And, None, 0, 0),
        Token::new(TokenType::Number(2), None, 0, 0),
        Token::new(TokenType::And, None, 0, 0),
        Token::new(TokenType::Number(3), None, 0, 0),
        Token::new(TokenType::SemiColon, None, 0, 0),
    ];
    let mut parser = Parser::new(&tokens);
    assert_eq!(
        AstType::And(
            Box::new(AstType::And(
                Box::new(AstType::Number(1)),
                Box::new(AstType::Number(2)),
            )),
            Box::new(AstType::Number(3)),
        ),
        parser.program()[0]
    );
}

#[test]
fn or_and_parse() {
    let tokens = vec![
        Token::new(TokenType::Number(1), None, 0, 0),
        Token::new(TokenType::Or, None, 0, 0),
        Token::new(TokenType::Number(2), None, 0, 0),
        Token::new(TokenType::And, None, 0, 0),
        Token::new(TokenType::Number(3), None, 0, 0),
        Token::new(TokenType::SemiColon, None, 0, 0),
    ];
    let mut parser = Parser::new(&tokens);
    assert_eq!(
        AstType::Or(
            Box::new(AstType::Number(1)),
            Box::new(AstType::And(
                Box::new(AstType::Number(2)),
                Box::new(AstType::Number(3)),
            )),
        ),
        parser.program()[0]
    );
}

#[test]
fn while_parse() {
    let tokens = vec![
        Token::new(TokenType::While, None, 0, 0),
        Token::new(TokenType::LeftParen, None, 0, 0),
        Token::new(TokenType::Number(1), None, 0, 0),
        Token::new(TokenType::RightParen, None, 0, 0),
        Token::new(TokenType::Number(2), None, 0, 0),
        Token::new(TokenType::SemiColon, None, 0, 0),
    ];
    let mut parser = Parser::new(&tokens);
    assert_eq!(
        AstType::While(Box::new(AstType::Number(1)), Box::new(AstType::Number(2)),),
        parser.program()[0]
    );
}

#[test]
fn for_parse() {
    let tokens = vec![
        Token::new(TokenType::For, None, 0, 0),
        Token::new(TokenType::LeftParen, None, 0, 0),
        Token::new(TokenType::Var, None, 0, 0),
        Token::new(TokenType::Identifier("a".to_string()), None, 0, 0),
        Token::new(TokenType::Equal, None, 0, 0),
        Token::new(TokenType::Number(1), None, 0, 0),
        Token::new(TokenType::SemiColon, None, 0, 0),
        Token::new(TokenType::Identifier("a".to_string()), None, 0, 0),
        Token::new(TokenType::Less, None, 0, 0),
        Token::new(TokenType::Number(10), None, 0, 0),
        Token::new(TokenType::SemiColon, None, 0, 0),
        Token::new(TokenType::Identifier("a".to_string()), None, 0, 0),
        Token::new(TokenType::Equal, None, 0, 0),
        Token::new(TokenType::Identifier("a".to_string()), None, 0, 0),
        Token::new(TokenType::Plus, None, 0, 0),
        Token::new(TokenType::Number(1), None, 0, 0),
        Token::new(TokenType::RightParen, None, 0, 0),
        Token::new(TokenType::Print, None, 0, 0),
        Token::new(TokenType::String("Hello".to_string()), None, 0, 0),
        Token::new(TokenType::SemiColon, None, 0, 0),
    ];
    let mut parser = Parser::new(&tokens);
    assert_eq!(
        AstType::Block(vec![
            AstType::Var("a".to_string(), Box::new(AstType::Number(1))),
            AstType::While(
                Box::new(AstType::Less(
                    Box::new(AstType::Identifier("a".to_string())),
                    Box::new(AstType::Number(10))
                )),
                Box::new(AstType::Block(vec![
                    AstType::Print(Box::new(AstType::String("Hello".to_string()))),
                    AstType::Assign(
                        "a".to_string(),
                        Box::new(AstType::Plus(
                            Box::new(AstType::Identifier("a".to_string())),
                            Box::new(AstType::Number(1))
                        ))
                    )
                ]))
            )
        ]),
        parser.program()[0]
    );
}

#[test]
fn call_parse() {
    let tokens = vec![
        Token::new(TokenType::Identifier("test_func".to_string()), None, 0, 0),
        Token::new(TokenType::LeftParen, None, 0, 0),
        Token::new(TokenType::Number(1), None, 0, 0),
        Token::new(TokenType::Comma, None, 0, 0),
        Token::new(TokenType::Number(2), None, 0, 0),
        Token::new(TokenType::RightParen, None, 0, 0),
        Token::new(TokenType::SemiColon, None, 0, 0),
    ];
    let mut parser = Parser::new(&tokens);
    assert_eq!(
        AstType::Call(
            "test_func".to_string(),
            vec![AstType::Number(1), AstType::Number(2)]
        ),
        parser.program()[0]
    );

    let tokens = vec![
        Token::new(TokenType::Identifier("test_func".to_string()), None, 0, 0),
        Token::new(TokenType::LeftParen, None, 0, 0),
        Token::new(TokenType::RightParen, None, 0, 0),
        Token::new(TokenType::SemiColon, None, 0, 0),
    ];
    let mut parser = Parser::new(&tokens);
    assert_eq!(
        AstType::Call("test_func".to_string(), vec![],),
        parser.program()[0]
    );
}

#[test]
fn function_definition_parse() {
    let tokens = vec![
        Token::new(TokenType::Fun, None, 0, 0),
        Token::new(TokenType::Identifier("test_func".to_string()), None, 0, 0),
        Token::new(TokenType::LeftParen, None, 0, 0),
        Token::new(TokenType::RightParen, None, 0, 0),
        Token::new(TokenType::LeftBrace, None, 0, 0),
        Token::new(TokenType::RightBrace, None, 0, 0),
    ];
    let mut parser = Parser::new(&tokens);
    assert_eq!(
        AstType::Fun(
            "test_func".to_string(),
            vec![],
            Box::new(AstType::Block(vec![])),
        ),
        parser.program()[0]
    );

    let tokens = vec![
        Token::new(TokenType::Fun, None, 0, 0),
        Token::new(TokenType::Identifier("test_func".to_string()), None, 0, 0),
        Token::new(TokenType::LeftParen, None, 0, 0),
        Token::new(TokenType::RightParen, None, 0, 0),
        Token::new(TokenType::LeftBrace, None, 0, 0),
        Token::new(TokenType::Print, None, 0, 0),
        Token::new(TokenType::String(String::from("test")), None, 1, 0),
        Token::new(TokenType::SemiColon, None, 0, 0),
        Token::new(TokenType::RightBrace, None, 0, 0),
    ];
    let mut parser = Parser::new(&tokens);
    assert_eq!(
        AstType::Fun(
            "test_func".to_string(),
            vec![],
            Box::new(AstType::Block(vec![AstType::Print(Box::new(
                AstType::String(String::from("test"))
            )),])),
        ),
        parser.program()[0]
    );

    let tokens = vec![
        Token::new(TokenType::Fun, None, 0, 0),
        Token::new(TokenType::Identifier("test_func".to_string()), None, 0, 0),
        Token::new(TokenType::LeftParen, None, 0, 0),
        Token::new(TokenType::Identifier("a".to_string()), None, 0, 0),
        Token::new(TokenType::Comma, None, 0, 0),
        Token::new(TokenType::Identifier("b".to_string()), None, 0, 0),
        Token::new(TokenType::RightParen, None, 0, 0),
        Token::new(TokenType::LeftBrace, None, 0, 0),
        Token::new(TokenType::RightBrace, None, 0, 0),
    ];
    let mut parser = Parser::new(&tokens);
    assert_eq!(
        AstType::Fun(
            "test_func".to_string(),
            vec![
                AstType::Identifier("a".to_string()),
                AstType::Identifier("b".to_string()),
            ],
            Box::new(AstType::Block(vec![])),
        ),
        parser.program()[0]
    );
}

#[test]
fn return_parse() {
    let tokens = vec![
        Token::new(TokenType::Fun, None, 0, 0),
        Token::new(TokenType::Identifier("test_func".to_string()), None, 0, 0),
        Token::new(TokenType::LeftParen, None, 0, 0),
        Token::new(TokenType::RightParen, None, 0, 0),
        Token::new(TokenType::LeftBrace, None, 0, 0),
        Token::new(TokenType::Return, None, 0, 0),
        Token::new(TokenType::Number(1), None, 0, 0),
        Token::new(TokenType::SemiColon, None, 0, 0),
        Token::new(TokenType::RightBrace, None, 0, 0),
    ];
    let mut parser = Parser::new(&tokens);
    assert_eq!(
        AstType::Fun(
            "test_func".to_string(),
            vec![],
            Box::new(AstType::Block(vec![AstType::Return(Box::new(
                AstType::Number(1)
            ))])),
        ),
        parser.program()[0]
    );

    let tokens = vec![
        Token::new(TokenType::Fun, None, 0, 0),
        Token::new(TokenType::Identifier("test_func".to_string()), None, 0, 0),
        Token::new(TokenType::LeftParen, None, 0, 0),
        Token::new(TokenType::RightParen, None, 0, 0),
        Token::new(TokenType::LeftBrace, None, 0, 0),
        Token::new(TokenType::Return, None, 0, 0),
        Token::new(TokenType::SemiColon, None, 0, 0),
        Token::new(TokenType::RightBrace, None, 0, 0),
    ];
    let mut parser = Parser::new(&tokens);
    assert_eq!(
        AstType::Fun(
            "test_func".to_string(),
            vec![],
            Box::new(AstType::Block(vec![AstType::Return(Box::new(
                AstType::Nil
            ))])),
        ),
        parser.program()[0]
    );
}
