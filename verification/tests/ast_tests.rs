use sari::{BinaryOp, Span, Token};

#[test]
fn binary_op_from_token_works() {
    let plus = Token::plus(Span::new(0, 1));
    let minus = Token::minus(Span::new(0, 1));
    let star = Token::star(Span::new(0, 1));
    let slash = Token::slash(Span::new(0, 1));

    assert_eq!(BinaryOp::from_token(plus), BinaryOp::Add);
    assert_eq!(BinaryOp::from_token(minus), BinaryOp::Sub);
    assert_eq!(BinaryOp::from_token(star), BinaryOp::Mul);
    assert_eq!(BinaryOp::from_token(slash), BinaryOp::Div);
}

#[test]
fn token_kind_as_str_works() {
    assert_eq!(sari::TokenKind::Plus.as_str(), "`+`");
    assert_eq!(sari::TokenKind::Minus.as_str(), "`-`");
    assert_eq!(sari::TokenKind::Star.as_str(), "`*`");
    assert_eq!(sari::TokenKind::Slash.as_str(), "`/`");
    assert_eq!(sari::TokenKind::LParen.as_str(), "`(`");
    assert_eq!(sari::TokenKind::RParen.as_str(), "`)`");
    assert_eq!(sari::TokenKind::Int.as_str(), "integer literal");
    assert_eq!(sari::TokenKind::Error.as_str(), "error");
    assert_eq!(sari::TokenKind::Eof.as_str(), "end of input");
}
