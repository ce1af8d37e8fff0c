use sari::{Scanner, SourceMap, SourcePos, SourceSpan, Span, Spanned, Token, TokenKind};

fn scan_all(input: &str) -> Vec<Token> {
    let mut source_map = SourceMap::new();
    let mut scanner = Scanner::new(input);

    let mut tokens = vec![];
    loop {
        let token = scanner.scan(&mut source_map);
        if token.kind() == TokenKind::Eof {
            break;
        }
        tokens.push(token);
    }
    tokens
}

#[test]
fn scans_empty_input() {
    assert_eq!(scan_all(""), vec![]);
}

#[test]
fn skips_whitespace() {
    // before
    assert_eq!(scan_all(" 1"), vec![Token::int_lit(Span::new(1, 2), 1)]);
    assert_eq!(scan_all("\t1"), vec![Token::int_lit(Span::new(1, 2), 1)]);
    assert_eq!(scan_all("\r1"), vec![Token::int_lit(Span::new(1, 2), 1)]);
    assert_eq!(scan_all("\n1"), vec![Token::int_lit(Span::new(1, 2), 1)]);
    assert_eq!(scan_all("   1"), vec![Token::int_lit(Span::new(3, 4), 1)]);

    // after
    assert_eq!(scan_all("1 "), vec![Token::int_lit(Span::new(0, 1), 1)]);
    assert_eq!(scan_all("1\t"), vec![Token::int_lit(Span::new(0, 1), 1)]);
    assert_eq!(scan_all("1\r"), vec![Token::int_lit(Span::new(0, 1), 1)]);
    assert_eq!(scan_all("1\n"), vec![Token::int_lit(Span::new(0, 1), 1)]);
    assert_eq!(scan_all("1   "), vec![Token::int_lit(Span::new(0, 1), 1)]);
}

#[test]
fn scans_simple_tokens() {
    assert_eq!(scan_all("+"), vec![Token::plus(Span::new(0, 1))]);
    assert_eq!(scan_all("-"), vec![Token::minus(Span::new(0, 1))]);
    assert_eq!(scan_all("*"), vec![Token::star(Span::new(0, 1))]);
    assert_eq!(scan_all("/"), vec![Token::slash(Span::new(0, 1))]);
    assert_eq!(scan_all("("), vec![Token::l_paren(Span::new(0, 1))]);
    assert_eq!(scan_all(")"), vec![Token::r_paren(Span::new(0, 1))]);
}

#[test]
fn scans_int_token() {
    assert_eq!(scan_all("0"), vec![Token::int_lit(Span::new(0, 1), 0)]);
    assert_eq!(scan_all("9"), vec![Token::int_lit(Span::new(0, 1), 9)]);
    assert_eq!(scan_all("123"), vec![Token::int_lit(Span::new(0, 3), 123)]);

    // overflow
    assert_eq!(
        scan_all("2147483647"),
        vec![Token::int_lit(Span::new(0, 10), 2147483647)]
    );
    assert_eq!(
        scan_all("2147483648"),
        vec![Token::int_lit(Span::new(0, 10), -2147483648)],
    );
}

#[test]
fn scans_error_token() {
    assert_eq!(scan_all("%"), vec![Token::error(Span::new(0, 1))]);

    // Unicode
    assert_eq!(scan_all("‰"), vec![Token::error(Span::new(0, 1))]);
}

#[test]
fn scans_multiple_tokens() {
    assert_eq!(
        scan_all("1+2"),
        vec![
            Token::int_lit(Span::new(0, 1), 1),
            Token::plus(Span::new(1, 2)),
            Token::int_lit(Span::new(2, 3), 2),
        ],
    );
}

#[test]
fn updates_source_map() {
    let mut source_map = SourceMap::new();
    let mut scanner = Scanner::new("1 +\n2 +\n3");

    while scanner.scan(&mut source_map).kind() != TokenKind::Eof {}

    // line 1
    assert_eq!(
        source_map.map_span(Span::new(0, 1)),
        SourceSpan::new(SourcePos::new(0, 1, 1), SourcePos::new(1, 1, 2))
    );

    // line 2
    assert_eq!(
        source_map.map_span(Span::new(4, 5)),
        SourceSpan::new(SourcePos::new(4, 2, 1), SourcePos::new(5, 2, 2))
    );

    // line 3
    assert_eq!(
        source_map.map_span(Span::new(8, 9)),
        SourceSpan::new(SourcePos::new(8, 3, 1), SourcePos::new(9, 3, 2))
    );
}

fn assert_covers(input: &str) {
    let chars: Vec<char> = input.chars().collect();
    let mut source_map = SourceMap::new();
    let mut scanner = Scanner::new(input);
    let mut pos = 0;
    loop {
        let token = scanner.scan(&mut source_map);
        let span = token.span();
        // no gap but whitespace, no overlap
        assert!(pos <= span.start());
        for i in pos..span.start() {
            assert!(matches!(chars[i], ' ' | '\t' | '\r' | '\n'));
        }
        if token.kind() == TokenKind::Eof {
            assert_eq!(span.start(), chars.len());
            assert_eq!(span.end(), chars.len());
            break;
        }
        assert!(span.start() < span.end());
        pos = span.end();
    }
}

#[test]
fn scanner_spans_cover_input() {
    assert_covers("");
    assert_covers("   ");
    assert_covers("(1 + 2) * 3");
    assert_covers("  12\t+\n%%(34 ) /5\r\n");
    assert_covers("‰ä + 7");
}
