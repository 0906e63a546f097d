use ppg::ast::{Branch, Def, File, Ident, List, Node};
use ppg::parse::AstNodeParserTrait;
use ppg::parser::{Parser, ParserError};
use ppg::scanner::BasicScannerError;
use ppg::token::TokenKind;

fn primed_parser(src: &str) -> Parser {
    let mut p = Parser::new(src.chars().collect());
    p.Scan().unwrap();
    p
}

fn lit_of(id: &Ident) -> String {
    id.Token.Literal.iter().collect()
}

#[test]
fn list_never_consumes_its_terminator() {
    let mut p = primed_parser("a; b; c;");
    let list = List::<Ident>::Expect(&mut p, TokenKind::SEMICOLON, TokenKind::EOF).unwrap();
    assert_eq!(list.Elements.len(), 3);
    assert_eq!(lit_of(&list.Elements[0]), "a");
    assert_eq!(lit_of(&list.Elements[1]), "b");
    assert_eq!(lit_of(&list.Elements[2]), "c");
    assert_eq!(list.Delimiter, TokenKind::SEMICOLON);
    assert_eq!(list.Term, TokenKind::EOF);
    // The final `;` was consumed as a delimiter; end-of-input is the
    // still-unconsumed terminator ...
    assert_eq!(p.Token.Kind, TokenKind::EOF);
    // ... and asking for a token past the already-observed end fails.
    assert!(matches!(
        p.Scan(),
        Err(ParserError::ScannerError(BasicScannerError::EOF(_)))
    ));
}

#[test]
fn empty_list_stops_at_the_terminator() {
    let mut p = primed_parser("} x;");
    let list = List::<Ident>::Expect(&mut p, TokenKind::SEMICOLON, TokenKind::RBRACE).unwrap();
    assert_eq!(list.Elements.len(), 0);
    assert_eq!(p.Token.Kind, TokenKind::RBRACE);
}

#[test]
fn trailing_delimiter_before_terminator_is_legal() {
    let mut p = primed_parser("a, b,;");
    let list = List::<Ident>::Expect(&mut p, TokenKind::COMMA, TokenKind::SEMICOLON).unwrap();
    assert_eq!(list.Elements.len(), 2);
    assert_eq!(p.Token.Kind, TokenKind::SEMICOLON);
}

#[test]
fn list_rejects_a_stray_token() {
    let mut p = primed_parser("a b;");
    match List::<Ident>::Expect(&mut p, TokenKind::COMMA, TokenKind::SEMICOLON) {
        Err(ParserError::UnexpectedToken(u)) => {
            assert_eq!(u.Want, TokenKind::SEMICOLON);
            assert_eq!(u.Have.Kind, TokenKind::Ident);
        }
        other => panic!("expected a mismatch, got {:?}", other),
    }
}

#[test]
fn nested_lists_share_punctuation() {
    let mut p = primed_parser("{ a => x, y; b => z; }");
    let branch = Branch::Expect(&mut p).unwrap();
    assert_eq!(branch.Patterns.Delimiter, TokenKind::SEMICOLON);
    assert_eq!(branch.Patterns.Term, TokenKind::RBRACE);
    assert_eq!(branch.Patterns.Elements.len(), 2);
    let first = &branch.Patterns.Elements[0];
    assert_eq!(lit_of(&first.Ahead), "a");
    assert_eq!(first.Rule.Elements.len(), 2);
    assert_eq!(first.Rule.Delimiter, TokenKind::COMMA);
    assert_eq!(first.Rule.Term, TokenKind::SEMICOLON);
    match (&first.Rule.Elements[0], &first.Rule.Elements[1]) {
        (Node::Ident(x), Node::Ident(y)) => {
            assert_eq!(lit_of(x), "x");
            assert_eq!(lit_of(y), "y");
        }
        other => panic!("expected identifier nodes, got {:?}", other),
    }
    let second = &branch.Patterns.Elements[1];
    assert_eq!(lit_of(&second.Ahead), "b");
    assert_eq!(second.Rule.Elements.len(), 1);
    // The branch consumed the closing `}` exactly once: the next token is
    // end-of-input.
    assert_eq!(p.Token.Kind, TokenKind::EOF);
}

#[test]
fn file_with_field_rule() {
    let mut p = primed_parser("Rule := $name: Ident, $body: Block;");
    let file = File::Expect(&mut p).unwrap();
    assert_eq!(file.Definitions.Elements.len(), 1);
    let def = &file.Definitions.Elements[0];
    assert_eq!(lit_of(&def.Name), "Rule");
    assert_eq!(def.Rule.Elements.len(), 2);
    match &def.Rule.Elements[0] {
        Node::Field(f) => {
            assert_eq!(lit_of(&f.Name), "name");
            assert_eq!(lit_of(&f.Rule), "Ident");
        }
        other => panic!("expected a field node, got {:?}", other),
    }
    match &def.Rule.Elements[1] {
        Node::Field(f) => {
            assert_eq!(lit_of(&f.Name), "body");
            assert_eq!(lit_of(&f.Rule), "Block");
        }
        other => panic!("expected a field node, got {:?}", other),
    }
    assert_eq!(p.Token.Kind, TokenKind::EOF);
}

#[test]
fn bad_format_at_the_position_of_the_stray_digit() {
    let mut p = primed_parser("Rule := 0z;");
    match File::Expect(&mut p) {
        Err(ParserError::ScannerError(BasicScannerError::BadFormat(b))) => {
            assert_eq!(b.PosRange.Begin.Offset, 8);
            assert_eq!(b.PosRange.End.Offset, 10);
        }
        other => panic!("expected a format error, got {:?}", other),
    }
}

#[test]
fn unterminated_string_aborts_the_parse() {
    // The raw tokenizer hits end-of-input inside the string; the grammar
    // layer hands that on as an EOF lookahead, which no rule element
    // accepts.
    let mut p = Parser::new("x := \"abc".chars().collect());
    p.Scan().unwrap();
    match File::Expect(&mut p) {
        Err(ParserError::UnexpectedToken(u)) => {
            assert_eq!(u.Have.Kind, TokenKind::EOF);
        }
        other => panic!("expected the parse to fail, got {:?}", other),
    }
}

#[test]
fn node_dispatch_rejects_other_kinds() {
    let mut p = primed_parser("; x");
    match Node::Expect(&mut p) {
        Err(ParserError::UnexpectedToken(u)) => {
            assert_eq!(u.Want, TokenKind::NoneKind);
            assert_eq!(u.Have.Kind, TokenKind::SEMICOLON);
        }
        other => panic!("expected a mismatch, got {:?}", other),
    }
}

#[test]
fn definitions_split_by_synthesized_semicolons() {
    // The line breaks after `b` and `d` are turned into the `;` that ends
    // each definition.
    let mut p = primed_parser("x := a, b\ny := c, d\n");
    let file = File::Expect(&mut p).unwrap();
    assert_eq!(file.Definitions.Elements.len(), 2);
    assert_eq!(lit_of(&file.Definitions.Elements[0].Name), "x");
    assert_eq!(file.Definitions.Elements[0].Rule.Elements.len(), 2);
    assert_eq!(lit_of(&file.Definitions.Elements[1].Name), "y");
}

#[test]
fn branch_rejects_wrong_opener() {
    let mut p = primed_parser("x;");
    match Branch::Expect(&mut p) {
        Err(ParserError::UnexpectedToken(u)) => {
            assert_eq!(u.Want, TokenKind::LBRACE);
            assert_eq!(u.Have.Kind, TokenKind::Ident);
        }
        other => panic!("expected a mismatch, got {:?}", other),
    }
}

#[test]
fn list_rule_parses_all_parts() {
    let mut p = primed_parser("($x: Item, Comma, Rparen) ;");
    let lr = ppg::ast::ListRule::Expect(&mut p).unwrap();
    assert_eq!(lit_of(&lr.Field.Name), "x");
    assert_eq!(lit_of(&lr.Field.Rule), "Item");
    assert_eq!(lit_of(&lr.Delimiter), "Comma");
    assert_eq!(lit_of(&lr.Term), "Rparen");
}

#[test]
fn match_reports_want_and_have() {
    let mut p = primed_parser("x;");
    match p.Match(TokenKind::SEMICOLON) {
        Err(ParserError::UnexpectedToken(u)) => {
            assert_eq!(u.Want, TokenKind::SEMICOLON);
            assert_eq!(u.Have.Kind, TokenKind::Ident);
            assert_eq!(u.Have.Literal.iter().collect::<String>(), "x");
        }
        other => panic!("expected a mismatch, got {:?}", other),
    }
    assert!(p.Match(TokenKind::Ident).is_ok());
    let next = p.MatchAndScan(TokenKind::Ident).unwrap();
    assert_eq!(next.Kind, TokenKind::SEMICOLON);
}

#[test]
fn get_token_and_scan_returns_the_old_lookahead() {
    let mut p = primed_parser("x y;");
    let t = p.GetTokenAndScan().unwrap();
    assert_eq!(t.Literal.iter().collect::<String>(), "x");
    assert_eq!(p.Token.Literal.iter().collect::<String>(), "y");
}

#[test]
fn def_node_positions_are_monotonic() {
    let mut p = primed_parser("r := a, { b => c; };");
    let def = Def::Expect(&mut p).unwrap();
    assert!(def.Pos.Begin.Offset <= def.Pos.End.Offset);
    assert_eq!(def.Rule.Elements.len(), 2);
    match &def.Rule.Elements[1] {
        Node::Match(b) => {
            assert_eq!(b.Patterns.Elements.len(), 1);
            assert!(b.Pos.Begin.Offset <= b.Pos.End.Offset);
        }
        other => panic!("expected a branch node, got {:?}", other),
    }
}
