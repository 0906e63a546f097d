use ppg::parser::{Parser, ParserError};
use ppg::scanner::{BasicScannerError, BufferScanner, IntFormat};
use ppg::token::TokenKind;

fn parser_for(src: &str) -> Parser {
    Parser::new(src.chars().collect())
}

fn scan_stream(src: &str) -> Vec<(TokenKind, String)> {
    let mut p = parser_for(src);
    let mut out: Vec<(TokenKind, String)> = Vec::new();
    loop {
        let t = p.Scan().unwrap();
        if matches!(t.Kind, TokenKind::EOF) {
            break;
        }
        out.push((t.Kind, t.Literal.iter().collect::<String>()));
    }
    out
}

#[test]
fn cursor_tracks_lines_and_columns() {
    let mut s = BufferScanner::new("ab\ncd".chars().collect());
    assert_eq!(s.GetChar().unwrap(), 'a');
    assert_eq!(s.Move().unwrap(), 'a');
    assert_eq!(s.Move().unwrap(), 'b');
    assert_eq!(s.Move().unwrap(), '\n');
    assert_eq!(s.Pos.Offset, 3);
    assert_eq!(s.Pos.Line, 1);
    assert_eq!(s.Pos.Column, 0);
    assert_eq!(s.GetChar().unwrap(), 'c');
}

#[test]
fn cursor_goto_next_line() {
    let mut s = BufferScanner::new("ab\ncd".chars().collect());
    s.GotoNextLine().unwrap();
    assert_eq!(s.Pos.Offset, 3);
    assert!(s.GotoNextLine().is_err());
    assert_eq!(s.Pos.Offset, 5);
}

#[test]
fn integer_bases_and_literals() {
    let toks = scan_stream("0x1f 0o17 0b101 123;");
    assert_eq!(
        toks,
        vec![
            (TokenKind::Int(IntFormat::HEX), "0x1f".to_string()),
            (TokenKind::Int(IntFormat::OCT), "0o17".to_string()),
            (TokenKind::Int(IntFormat::BIN), "0b101".to_string()),
            (TokenKind::Int(IntFormat::DEC), "123".to_string()),
            (TokenKind::SEMICOLON, ";".to_string()),
        ]
    );
}

#[test]
fn base_prefix_with_empty_run() {
    // `0x` followed by no hexadecimal digit yields an integer token whose
    // literal is just the prefix: the base run itself may be empty.
    let toks = scan_stream("0x;");
    assert_eq!(
        toks,
        vec![
            (TokenKind::Int(IntFormat::HEX), "0x".to_string()),
            (TokenKind::SEMICOLON, ";".to_string()),
        ]
    );
}

#[test]
fn integer_token_range_starts_at_the_prefix() {
    // The token's range spans everything it consumed, the written base
    // prefix included.
    let mut p = parser_for(" 0x1f;");
    let t = p.Scan().unwrap();
    assert_eq!(t.Kind, TokenKind::Int(IntFormat::HEX));
    assert_eq!(t.Pos.Begin.Offset, 1);
    assert_eq!(t.Pos.End.Offset, 5);
}

#[test]
fn bad_integer_prefix() {
    let mut p = parser_for("0z;");
    match p.Scan() {
        Err(ParserError::ScannerError(BasicScannerError::BadFormat(b))) => {
            assert_eq!(b.PosRange.Begin.Offset, 0);
            assert_eq!(b.PosRange.End.Offset, 2);
        }
        other => panic!("expected a format error, got {:?}", other.map(|t| t.Kind)),
    }
}

#[test]
fn string_escapes_decode() {
    let toks = scan_stream("\"a\\n\\t\\r\\\\\\xFF\\u00E9\\U0001F600\\\" b\";");
    assert_eq!(toks.len(), 2);
    assert!(matches!(toks[0].0, TokenKind::Str));
    assert_eq!(toks[0].1, "a\n\t\r\\\u{FF}\u{E9}\u{1F600}\" b");
    assert_eq!(toks[1].0, TokenKind::SEMICOLON);
}

#[test]
fn string_escape_uppercase_and_single_quote() {
    let toks = scan_stream("'\\u0041\\'x';");
    assert!(matches!(toks[0].0, TokenKind::Str));
    assert_eq!(toks[0].1, "A'x");
}

#[test]
fn invalid_escape_fails() {
    let mut p = parser_for("\"a\\qb\";");
    assert!(matches!(
        p.Scan(),
        Err(ParserError::ScannerError(BasicScannerError::BadFormat(_)))
    ));
}

#[test]
fn escape_code_point_too_large_fails() {
    let mut p = parser_for("\"\\UFFFFFFFF\";");
    assert!(matches!(
        p.Scan(),
        Err(ParserError::ScannerError(BasicScannerError::BadFormat(_)))
    ));
}

#[test]
fn escape_surrogate_fails() {
    let mut p = parser_for("\"\\uD800\";");
    assert!(matches!(
        p.Scan(),
        Err(ParserError::ScannerError(BasicScannerError::BadFormat(_)))
    ));
}

#[test]
fn unterminated_string_is_end_of_input() {
    // The raw tokenizer runs off the end of the buffer mid-string.
    let mut p = parser_for("\"abc");
    assert!(matches!(p.Scanner.Scan(), Err(BasicScannerError::EOF(_))));
    // The grammar layer surfaces that first end-of-input as an EOF token.
    let mut q = parser_for("\"abc");
    assert_eq!(q.Scan().unwrap().Kind, TokenKind::EOF);
}

#[test]
fn comments_never_reach_the_token_stream() {
    let toks = scan_stream("a // hi\nb /* x */ c;\n");
    let kinds: Vec<TokenKind> = toks.iter().map(|t| t.0).collect();
    assert_eq!(
        kinds,
        vec![
            TokenKind::Ident,
            TokenKind::Ident,
            TokenKind::Ident,
            TokenKind::SEMICOLON,
        ]
    );
    assert_eq!(toks[0].1, "a");
    assert_eq!(toks[1].1, "b");
    assert_eq!(toks[2].1, "c");
}

#[test]
fn line_comment_swallows_its_newline() {
    // The comment's literal includes the line break, so no terminator is
    // synthesized from it.
    let toks = scan_stream("a // end\nb;");
    let kinds: Vec<TokenKind> = toks.iter().map(|t| t.0).collect();
    assert_eq!(
        kinds,
        vec![TokenKind::Ident, TokenKind::Ident, TokenKind::SEMICOLON]
    );
}

#[test]
fn block_comment_star_pairing() {
    // A `*` not followed by `/` skips both characters, so the closing pair
    // must start on an even step: `/* * */` closes ...
    let toks = scan_stream("x /* * */ y;");
    let kinds: Vec<TokenKind> = toks.iter().map(|t| t.0).collect();
    assert_eq!(
        kinds,
        vec![TokenKind::Ident, TokenKind::Ident, TokenKind::SEMICOLON]
    );
    // ... while in `/***/` the second star is skipped over together with
    // the first, the `*/` is never seen, and the comment runs to the end
    // of the input.
    let mut p = parser_for("x /***/ y");
    assert!(matches!(p.Scan().unwrap().Kind, TokenKind::Ident));
    assert!(matches!(p.Scan().unwrap().Kind, TokenKind::EOF));
}

#[test]
fn unknown_character_is_a_format_error() {
    // A leading character in no class at all (here a non-ASCII symbol) is
    // a format error over that character, not an end-of-input.
    let mut p = parser_for("a \u{a7}b;");
    assert!(matches!(p.Scan().unwrap().Kind, TokenKind::Ident));
    match p.Scan() {
        Err(ParserError::ScannerError(BasicScannerError::BadFormat(b))) => {
            assert_eq!(b.PosRange.Begin.Offset, 2);
            assert_eq!(b.PosRange.End.Offset, 3);
        }
        other => panic!("expected a format error, got {:?}", other.map(|t| t.Kind)),
    }
}

#[test]
fn lone_slash_is_a_bad_comment_opener() {
    let mut p = parser_for("a / b");
    assert!(matches!(p.Scan().unwrap().Kind, TokenKind::Ident));
    assert!(matches!(
        p.Scan(),
        Err(ParserError::ScannerError(BasicScannerError::BadFormat(_)))
    ));
}

#[test]
fn automatic_semicolon_after_value_like_token() {
    let toks = scan_stream("a\nb\n");
    assert_eq!(
        toks,
        vec![
            (TokenKind::Ident, "a".to_string()),
            (TokenKind::SEMICOLON, ";".to_string()),
            (TokenKind::Ident, "b".to_string()),
            (TokenKind::SEMICOLON, ";".to_string()),
        ]
    );
}

#[test]
fn no_automatic_semicolon_after_operator() {
    let toks = scan_stream("a + \n b;");
    let kinds: Vec<TokenKind> = toks.iter().map(|t| t.0).collect();
    assert_eq!(
        kinds,
        vec![
            TokenKind::Ident,
            TokenKind::Operator,
            TokenKind::Ident,
            TokenKind::SEMICOLON,
        ]
    );
}

#[test]
fn synthesized_semicolon_sits_at_the_newline() {
    let mut p = parser_for("a\nb;");
    p.Scan().unwrap();
    let semi = p.Scan().unwrap();
    assert_eq!(semi.Kind, TokenKind::SEMICOLON);
    assert_eq!(semi.Literal.iter().collect::<String>(), ";");
    assert_eq!(semi.Pos.Begin.Offset, 1);
    assert_eq!(semi.Pos.End.Offset, 2);
    assert_eq!(semi.Pos.End.Line, 1);
    assert_eq!(semi.Pos.End.Column, 0);
}

#[test]
fn automatic_semicolon_after_closing_brackets() {
    let toks = scan_stream("f()\ng{}\n1\n;");
    let kinds: Vec<TokenKind> = toks.iter().map(|t| t.0).collect();
    assert_eq!(
        kinds,
        vec![
            TokenKind::Ident,
            TokenKind::LPAREN,
            TokenKind::RPAREN,
            TokenKind::SEMICOLON,
            TokenKind::Ident,
            TokenKind::LBRACE,
            TokenKind::RBRACE,
            TokenKind::SEMICOLON,
            TokenKind::Int(IntFormat::DEC),
            TokenKind::SEMICOLON,
            TokenKind::SEMICOLON,
        ]
    );
}

#[test]
fn reserved_symbols_map_to_their_kinds() {
    let toks = scan_stream("$()[]{}:;,. ");
    let kinds: Vec<TokenKind> = toks.iter().map(|t| t.0).collect();
    assert_eq!(
        kinds,
        vec![
            TokenKind::FIELD,
            TokenKind::LPAREN,
            TokenKind::RPAREN,
            TokenKind::LBRACK,
            TokenKind::RBRACK,
            TokenKind::LBRACE,
            TokenKind::RBRACE,
            TokenKind::COLON,
            TokenKind::SEMICOLON,
            TokenKind::COMMA,
            TokenKind::DOT,
        ]
    );
}

#[test]
fn multi_character_operators() {
    let toks = scan_stream("a := b => c :: d;");
    assert_eq!(toks[1], (TokenKind::DEFINE, ":=".to_string()));
    assert_eq!(toks[3], (TokenKind::ARROW, "=>".to_string()));
    assert_eq!(toks[5], (TokenKind::Operator, "::".to_string()));
}

#[test]
fn operator_run_stops_at_delimiters_and_quotes() {
    let toks = scan_stream("a:=(b);");
    let kinds: Vec<TokenKind> = toks.iter().map(|t| t.0).collect();
    assert_eq!(
        kinds,
        vec![
            TokenKind::Ident,
            TokenKind::DEFINE,
            TokenKind::LPAREN,
            TokenKind::Ident,
            TokenKind::RPAREN,
            TokenKind::SEMICOLON,
        ]
    );
}

#[test]
fn identifiers_with_underscores_and_digits() {
    let toks = scan_stream("_a1b2 x_y;");
    assert_eq!(toks[0], (TokenKind::Ident, "_a1b2".to_string()));
    assert_eq!(toks[1], (TokenKind::Ident, "x_y".to_string()));
}

#[test]
fn token_positions_follow_the_source() {
    let mut p = parser_for("ab\ncd;");
    let ab = p.Scan().unwrap();
    assert_eq!(ab.Pos.Begin.Offset, 0);
    assert_eq!(ab.Pos.End.Offset, 2);
    assert_eq!(ab.Pos.End.Column, 2);
    let semi = p.Scan().unwrap();
    assert_eq!(semi.Kind, TokenKind::SEMICOLON);
    let cd = p.Scan().unwrap();
    assert_eq!(cd.Pos.Begin.Offset, 3);
    assert_eq!(cd.Pos.Begin.Line, 1);
    assert_eq!(cd.Pos.Begin.Column, 0);
}

#[test]
fn leading_whitespace_is_skipped() {
    let mut p = parser_for("  \t x;");
    let x = p.Scan().unwrap();
    assert_eq!(x.Kind, TokenKind::Ident);
    assert_eq!(x.Pos.Begin.Offset, 4);
}

#[test]
fn double_end_of_input_fails() {
    let mut p = parser_for("x;");
    assert_eq!(p.Scan().unwrap().Kind, TokenKind::Ident);
    assert_eq!(p.Scan().unwrap().Kind, TokenKind::SEMICOLON);
    assert_eq!(p.Scan().unwrap().Kind, TokenKind::EOF);
    assert!(matches!(
        p.Scan(),
        Err(ParserError::ScannerError(BasicScannerError::EOF(_)))
    ));
}
