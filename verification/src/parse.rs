//! The recursive-descent productions: one predictive parse function per
//! node of the meta-grammar, built on the generic list-parsing protocol
//! whose central rule is that a list never consumes its terminator.

use vstd::prelude::*;

use crate::ast::{Branch, Def, Field, File, Ident, List, ListRule, Node, Pattern};
use crate::diagnosis::UnexpectedTokenError;
use crate::parser::{lemma_scan_ok_measure, scan_measure, Parser, ParserError};
use crate::pos::PosRange;
use crate::token::{tag_eq, tag_matches, tok_eq, TokenKind};

verus! {

/// An identifier node carries its own token, which is an identifier, and
/// spans exactly that token.
pub open spec fn ident_wf(id: Ident) -> bool {
    id.Token.Kind is Ident && id.Pos == id.Token.Pos
}

/// How an identifier production fails: either the advance past the
/// lookahead failed, or it succeeded and the lookahead was no identifier.
pub open spec fn ident_expect_err(pre: Parser, e: ParserError, post: Parser) -> bool {
    Parser::scan_err(pre, e, post) || (Parser::scan_ok(pre, post) && !(pre.Token.Kind is Ident) && (
    e matches ParserError::UnexpectedToken(u) && u.Want == TokenKind::Ident && tok_eq(
        u.Have,
        pre.Token,
    )))
}

/// What is true of every failure of the parse layer: a tokenizer failure
/// carries exactly the error that scanning from some well-formed state of
/// this buffer yields, ending where the parse ended; a mismatch carries
/// the lookahead at the failure, or, for the identifier production, the
/// token scanned just before it.
pub open spec fn parse_fail(e: ParserError, post: Parser) -> bool {
    match e {
        ParserError::ScannerError(_) => exists|a: Parser|
            a.wf() && #[trigger] Parser::scan_err(a, e, post),
        ParserError::UnexpectedToken(u) => tok_eq(u.Have, post.Token) || (u.Want
            == TokenKind::Ident && exists|a: Parser|
            a.wf() && #[trigger] Parser::scan_ok(a, post) && tok_eq(u.Have, a.Token)),
    }
}

/// The node spans from the cursor before the parse to the cursor after.
pub open spec fn spans(pre: Parser, pos: PosRange, post: Parser) -> bool {
    pos == (PosRange { Begin: pre.Scanner.BufferScanner.Pos, End: post.Scanner.BufferScanner.Pos })
}

/// A successful identifier parse: the node holds exactly the lookahead
/// token, which was an identifier, and the parser advanced one token.
pub open spec fn ident_parse_ok(pre: Parser, node: Ident, post: Parser) -> bool {
    &&& pre.Token.Kind is Ident
    &&& tok_eq(node.Token, pre.Token)
    &&& node.Pos == pre.Token.Pos
    &&& Parser::scan_ok(pre, post)
}

/// A successful field parse: `$` name `:` rule, both sub-nodes
/// identifiers.
pub open spec fn field_parse_ok(pre: Parser, node: Field, post: Parser) -> bool {
    &&& tag_eq(pre.Token.Kind, TokenKind::FIELD)
    &&& ident_wf(node.Name)
    &&& ident_wf(node.Rule)
    &&& spans(pre, node.Pos, post)
}

/// A successful pattern parse: the arm's lookahead identifier is the
/// token the parse began at, the body list is delimited by `,` and
/// terminated by `;`, and that `;` is left for the enclosing branch.
pub open spec fn pattern_parse_ok(pre: Parser, node: Pattern, post: Parser) -> bool {
    &&& pre.Token.Kind is Ident
    &&& ident_wf(node.Ahead)
    &&& tok_eq(node.Ahead.Token, pre.Token)
    &&& node.Rule.Delimiter == TokenKind::COMMA
    &&& node.Rule.Term == TokenKind::SEMICOLON
    &&& tag_eq(post.Token.Kind, TokenKind::SEMICOLON)
    &&& forall|k: int|
        0 <= k < node.Rule.Elements@.len() ==> parsed_node(#[trigger] node.Rule.Elements@[k])
    &&& exists|m1: Parser, m2: Parser|
        #[trigger] Parser::scan_ok(pre, m1) && tag_eq(m1.Token.Kind, TokenKind::ARROW)
            && #[trigger] Parser::scan_ok(m1, m2) && node_list_ok(m2, node.Rule, post)
    &&& spans(pre, node.Pos, post)
}

/// A successful branch parse: `{` patterns `}`, the pattern list
/// delimited by `;` and terminated by `}`, which the branch consumes.
pub open spec fn branch_parse_ok(pre: Parser, node: Branch, post: Parser) -> bool {
    &&& tag_eq(pre.Token.Kind, TokenKind::LBRACE)
    &&& node.Patterns.Delimiter == TokenKind::SEMICOLON
    &&& node.Patterns.Term == TokenKind::RBRACE
    &&& spans(pre, node.Pos, post)
}

/// A successful repetition-rule parse: `(` field `,` delimiter `,`
/// terminator `)`.
pub open spec fn list_rule_parse_ok(pre: Parser, node: ListRule, post: Parser) -> bool {
    &&& tag_eq(pre.Token.Kind, TokenKind::LPAREN)
    &&& ident_wf(node.Field.Name)
    &&& ident_wf(node.Field.Rule)
    &&& ident_wf(node.Delimiter)
    &&& ident_wf(node.Term)
    &&& spans(pre, node.Pos, post)
}

/// The rule element is what some successful node parse yields.
pub open spec fn parsed_node(node: Node) -> bool {
    exists|a: Parser, b: Parser| node_parse_ok(a, node, b)
}

/// The arm is what some successful pattern parse yields.
pub open spec fn parsed_pattern(node: Pattern) -> bool {
    exists|a: Parser, b: Parser| pattern_parse_ok(a, node, b)
}

/// The definition is what some successful definition parse yields.
pub open spec fn parsed_def(node: Def) -> bool {
    exists|a: Parser, b: Parser| def_parse_ok(a, node, b)
}

/// A successful node parse: the union is dispatched purely on the leading
/// token kind.
pub open spec fn node_parse_ok(pre: Parser, node: Node, post: Parser) -> bool {
    if pre.Token.Kind is Ident {
        node matches Node::Ident(id) && ident_parse_ok(pre, *id, post)
    } else if tag_eq(pre.Token.Kind, TokenKind::FIELD) {
        node matches Node::Field(f) && field_parse_ok(pre, *f, post)
    } else if tag_eq(pre.Token.Kind, TokenKind::LBRACE) {
        node matches Node::Match(b) && branch_parse_ok(pre, *b, post)
    } else if tag_eq(pre.Token.Kind, TokenKind::LPAREN) {
        node matches Node::ListRule(l) && list_rule_parse_ok(pre, *l, post)
    } else {
        false
    }
}

/// A successful definition parse: name `:=` rule, the rule list delimited
/// by `,` and terminated by `;`, which is left for the file list.
pub open spec fn def_parse_ok(pre: Parser, node: Def, post: Parser) -> bool {
    &&& pre.Token.Kind is Ident
    &&& ident_wf(node.Name)
    &&& tok_eq(node.Name.Token, pre.Token)
    &&& node.Rule.Delimiter == TokenKind::COMMA
    &&& node.Rule.Term == TokenKind::SEMICOLON
    &&& tag_eq(post.Token.Kind, TokenKind::SEMICOLON)
    &&& forall|k: int|
        0 <= k < node.Rule.Elements@.len() ==> parsed_node(#[trigger] node.Rule.Elements@[k])
    &&& exists|m1: Parser, m2: Parser|
        #[trigger] Parser::scan_ok(pre, m1) && tag_eq(m1.Token.Kind, TokenKind::DEFINE)
            && #[trigger] Parser::scan_ok(m1, m2) && node_list_ok(m2, node.Rule, post)
    &&& spans(pre, node.Pos, post)
}

/// A successful file parse: definitions delimited by `;` and terminated
/// by end of input, which is never consumed.
pub open spec fn file_parse_ok(pre: Parser, node: File, post: Parser) -> bool {
    &&& node.Definitions.Delimiter == TokenKind::SEMICOLON
    &&& node.Definitions.Term == TokenKind::EOF
    &&& tag_eq(post.Token.Kind, TokenKind::EOF)
    &&& forall|k: int|
        0 <= k < node.Definitions.Elements@.len() ==> parsed_def(
            #[trigger] node.Definitions.Elements@[k],
        )
    &&& spans(pre, node.Pos, post)
}

/// The lookahead stream spells a complete field: a `$`, an identifier, a
/// `:` and an identifier, each next lookahead reached by a successful
/// scan. From such a state the field production cannot fail.
pub open spec fn field_derives(pre: Parser) -> bool {
    &&& tag_eq(pre.Token.Kind, TokenKind::FIELD)
    &&& pre.scan_succeeds()
    &&& forall|s1: Parser|
        #[trigger] Parser::scan_ok(pre, s1) ==> s1.Token.Kind is Ident && s1.scan_succeeds() && (
        forall|s2: Parser|
            #[trigger] Parser::scan_ok(s1, s2) ==> tag_eq(s2.Token.Kind, TokenKind::COLON)
                && s2.scan_succeeds() && (forall|s3: Parser|
                #[trigger] Parser::scan_ok(s2, s3) ==> s3.Token.Kind is Ident
                    && s3.scan_succeeds()))
}

/// The lookahead stream spells a complete repetition rule: `(`, a field
/// as `field_derives` demands, then `,`, an identifier, `,`, an
/// identifier and `)`. From such a state the rule production cannot fail.
pub open spec fn list_rule_derives(pre: Parser) -> bool {
    &&& tag_eq(pre.Token.Kind, TokenKind::LPAREN)
    &&& pre.scan_succeeds()
    &&& forall|s1: Parser|
        #[trigger] Parser::scan_ok(pre, s1) ==> field_derives(s1) && (forall|f: Field, s2: Parser|
            #[trigger] field_parse_ok(s1, f, s2) ==> tag_eq(s2.Token.Kind, TokenKind::COMMA)
                && s2.scan_succeeds() && (forall|s3: Parser|
                #[trigger] Parser::scan_ok(s2, s3) ==> s3.Token.Kind is Ident
                    && s3.scan_succeeds() && (forall|s4: Parser|
                    #[trigger] Parser::scan_ok(s3, s4) ==> tag_eq(s4.Token.Kind, TokenKind::COMMA)
                        && s4.scan_succeeds() && (forall|s5: Parser|
                        #[trigger] Parser::scan_ok(s4, s5) ==> s5.Token.Kind is Ident
                            && s5.scan_succeeds() && (forall|s6: Parser|
                            #[trigger] Parser::scan_ok(s5, s6) ==> tag_eq(
                                s6.Token.Kind,
                                TokenKind::RPAREN,
                            ) && s6.scan_succeeds())))))
}

/// A production rejected its leading token on the spot, consuming
/// nothing.
pub open spec fn reject_at_entry(pre: Parser, want: TokenKind, e: ParserError, post: Parser) -> bool {
    e matches ParserError::UnexpectedToken(u) && u.Want == want && tok_eq(u.Have, pre.Token)
        && post == pre
}

/// A failed field parse: a lookahead that is no `$` is rejected on the
/// spot, consuming nothing.
pub open spec fn field_parse_err(pre: Parser, e: ParserError, post: Parser) -> bool {
    !tag_eq(pre.Token.Kind, TokenKind::FIELD) ==> reject_at_entry(pre, TokenKind::FIELD, e, post)
}

/// A failed pattern parse: a lookahead that is no identifier fails as the
/// identifier production does.
pub open spec fn pattern_parse_err(pre: Parser, e: ParserError, post: Parser) -> bool {
    !(pre.Token.Kind is Ident) ==> ident_expect_err(pre, e, post)
}

/// A failed branch parse: a lookahead that is no `{` is rejected on the
/// spot, consuming nothing.
pub open spec fn branch_parse_err(pre: Parser, e: ParserError, post: Parser) -> bool {
    !tag_eq(pre.Token.Kind, TokenKind::LBRACE) ==> reject_at_entry(pre, TokenKind::LBRACE, e, post)
}

/// A failed repetition-rule parse: a lookahead that is no `(` is rejected
/// on the spot, consuming nothing.
pub open spec fn list_rule_parse_err(pre: Parser, e: ParserError, post: Parser) -> bool {
    !tag_eq(pre.Token.Kind, TokenKind::LPAREN) ==> reject_at_entry(pre, TokenKind::LPAREN, e, post)
}

/// A failed node parse: a lookahead on which no alternative opens is
/// rejected on the spot, consuming nothing.
pub open spec fn node_parse_err(pre: Parser, e: ParserError, post: Parser) -> bool {
    (!(pre.Token.Kind is Ident) && !tag_eq(pre.Token.Kind, TokenKind::FIELD) && !tag_eq(
        pre.Token.Kind,
        TokenKind::LBRACE,
    ) && !tag_eq(pre.Token.Kind, TokenKind::LPAREN)) ==> reject_at_entry(
        pre,
        TokenKind::NoneKind,
        e,
        post,
    )
}

/// A failed definition parse: a lookahead that is no identifier fails as
/// the identifier production does.
pub open spec fn def_parse_err(pre: Parser, e: ParserError, post: Parser) -> bool {
    !(pre.Token.Kind is Ident) ==> ident_expect_err(pre, e, post)
}

/// A failed file parse: the failure of whichever definition or separator
/// was reached, in the shapes the definition list owes.
pub open spec fn file_parse_err(pre: Parser, e: ParserError, post: Parser) -> bool {
    parse_fail(e, post) && list_expect_err::<Def>(
        pre,
        TokenKind::SEMICOLON,
        TokenKind::EOF,
        e,
        post,
    )
}

/// The frame every production maintains.
pub open spec fn expect_frame(pre: Parser, post: Parser) -> bool {
    &&& post.wf()
    &&& post.buf() == pre.buf()
    &&& post.off() >= pre.off()
    &&& scan_measure(post) <= scan_measure(pre)
}

/// Parse one identifier.
fn expect_ident(p: &mut Parser) -> (r: Result<Ident, ParserError>)
    requires
        old(p).wf(),
    ensures
        expect_frame(*old(p), *final(p)),
        old(p).Token.Kind is Ident && old(p).scan_succeeds() ==> r is Ok,
        r matches Ok(node) ==> ident_parse_ok(*old(p), node, *final(p)),
        r matches Err(e) ==> ident_expect_err(*old(p), e, *final(p)) && parse_fail(
            e,
            *final(p),
        ),
    decreases scan_measure(*old(p)), 0int,
{
    let token = match p.GetTokenAndScan() {
        Ok(t) => t,
        Err(e) => {
            return Err(e);
        },
    };
    proof {
        lemma_scan_ok_measure(*old(p), *p);
    }
    match token.Kind {
        TokenKind::Ident => Ok(Ident { Pos: token.Pos, Token: token }),
        _ => Err(
            ParserError::UnexpectedToken(
                UnexpectedTokenError { Want: TokenKind::Ident, Have: token },
            ),
        ),
    }
}

/// Parse one `$name: rule` field.
fn expect_field(p: &mut Parser) -> (r: Result<Field, ParserError>)
    requires
        old(p).wf(),
    ensures
        expect_frame(*old(p), *final(p)),
        field_derives(*old(p)) ==> r is Ok,
        r matches Ok(node) ==> field_parse_ok(*old(p), node, *final(p)),
        r matches Err(e) ==> field_parse_err(*old(p), e, *final(p)) && parse_fail(
            e,
            *final(p),
        ),
    decreases scan_measure(*old(p)), 1int,
{
    let begin = p.GetPos();
    match p.MatchAndScan(TokenKind::FIELD) {
        Ok(_) => {},
        Err(e) => {
            return Err(e);
        },
    }
    proof {
        lemma_scan_ok_measure(*old(p), *p);
    }
    let name = match expect_ident(p) {
        Ok(v) => v,
        Err(e) => {
            return Err(e);
        },
    };
    match p.MatchAndScan(TokenKind::COLON) {
        Ok(_) => {},
        Err(e) => {
            return Err(e);
        },
    }
    let rule = match expect_ident(p) {
        Ok(v) => v,
        Err(e) => {
            return Err(e);
        },
    };
    Ok(Field { Pos: PosRange { Begin: begin, End: p.GetPos() }, Name: name, Rule: rule })
}

/// Parse one `lookahead => body` pattern arm.
fn expect_pattern(p: &mut Parser) -> (r: Result<Pattern, ParserError>)
    requires
        old(p).wf(),
    ensures
        expect_frame(*old(p), *final(p)),
        (exists|n: nat| pattern_derives(*old(p), n)) ==> r is Ok,
        r matches Ok(node) ==> pattern_parse_ok(*old(p), node, *final(p)),
        r matches Err(e) ==> pattern_parse_err(*old(p), e, *final(p)) && parse_fail(
            e,
            *final(p),
        ),
    decreases scan_measure(*old(p)), 1int,
{
    let begin = p.GetPos();
    proof {
        assert((exists|n: nat| pattern_derives(*old(p), n)) ==> (old(p).Token.Kind is Ident
            && old(p).scan_succeeds())) by {
            if exists|n: nat| pattern_derives(*old(p), n) {
                let n1 = choose|n: nat| pattern_derives(*old(p), n);
                assert(pattern_derives(*old(p), n1));
            }
        }
    }
    let ahead = match expect_ident(p) {
        Ok(v) => v,
        Err(e) => {
            return Err(e);
        },
    };
    let ghost mid = *p;
    proof {
        assert((exists|n: nat| pattern_derives(*old(p), n)) ==> (tag_eq(
            mid.Token.Kind,
            TokenKind::ARROW,
        ) && mid.scan_succeeds())) by {
            if exists|n: nat| pattern_derives(*old(p), n) {
                let n1 = choose|n: nat| pattern_derives(*old(p), n);
                assert(pattern_derives(*old(p), n1));
                assert(Parser::scan_ok(*old(p), mid));
            }
        }
    }
    match p.MatchAndScan(TokenKind::ARROW) {
        Ok(_) => {},
        Err(e) => {
            return Err(e);
        },
    }
    proof {
        lemma_scan_ok_measure(mid, *p);
    }
    let ghost m2 = *p;
    proof {
        assert((exists|n: nat| pattern_derives(*old(p), n)) ==> (exists|m: nat|
            node_list_derives(m2, m))) by {
            if exists|n: nat| pattern_derives(*old(p), n) {
                let n1 = choose|n: nat| pattern_derives(*old(p), n);
                assert(pattern_derives(*old(p), n1));
                assert(Parser::scan_ok(*old(p), mid));
                assert(Parser::scan_ok(mid, m2));
                assert(node_list_derives(m2, n1));
            }
        }
    }
    let rule = match expect_node_list(p) {
        Ok(v) => v,
        Err(e) => {
            return Err(e);
        },
    };
    proof {
        assert(Parser::scan_ok(*old(p), mid));
        assert(Parser::scan_ok(mid, m2));
        assert(node_list_ok(m2, rule, *p));
    }
    Ok(Pattern { Pos: PosRange { Begin: begin, End: p.GetPos() }, Ahead: ahead, Rule: rule })
}

/// Parse one `{ pattern; pattern; ... }` branch block.
fn expect_branch(p: &mut Parser) -> (r: Result<Branch, ParserError>)
    requires
        old(p).wf(),
    ensures
        expect_frame(*old(p), *final(p)),
        (exists|n: nat| branch_derives(*old(p), n)) ==> r is Ok,
        r matches Ok(node) ==> branch_parse_ok(*old(p), node, *final(p)),
        r matches Err(e) ==> branch_parse_err(*old(p), e, *final(p)) && parse_fail(
            e,
            *final(p),
        ),
    decreases scan_measure(*old(p)), 1int,
{
    let begin = p.GetPos();
    match p.MatchAndScan(TokenKind::LBRACE) {
        Ok(_) => {},
        Err(e) => {
            return Err(e);
        },
    }
    proof {
        lemma_scan_ok_measure(*old(p), *p);
    }
    let ghost m1 = *p;
    proof {
        assert((exists|n: nat| branch_derives(*old(p), n)) ==> (exists|n: nat|
            pattern_list_derives(m1, n))) by {
            if exists|n: nat| branch_derives(*old(p), n) {
                let n1 = choose|n: nat| branch_derives(*old(p), n);
                assert(branch_derives(*old(p), n1));
                assert(Parser::scan_ok(*old(p), m1));
                assert(pattern_list_derives(m1, n1));
            }
        }
    }
    let patterns = match expect_pattern_list(p) {
        Ok(v) => v,
        Err(e) => {
            return Err(e);
        },
    };
    let ghost mid = *p;
    proof {
        assert((exists|n: nat| branch_derives(*old(p), n)) ==> mid.scan_succeeds()) by {
            if exists|n: nat| branch_derives(*old(p), n) {
                let n1 = choose|n: nat| branch_derives(*old(p), n);
                assert(branch_derives(*old(p), n1));
                assert(Parser::scan_ok(*old(p), m1));
                assert(pattern_list_ok(m1, patterns, mid));
            }
        }
    }
    match p.Scan() {
        Ok(_) => {},
        Err(e) => {
            return Err(e);
        },
    }
    proof {
        lemma_scan_ok_measure(mid, *p);
    }
    Ok(Branch { Pos: PosRange { Begin: begin, End: p.GetPos() }, Patterns: patterns })
}

/// Parse one `(field, delimiter, terminator)` repetition rule.
fn expect_list_rule(p: &mut Parser) -> (r: Result<ListRule, ParserError>)
    requires
        old(p).wf(),
    ensures
        expect_frame(*old(p), *final(p)),
        list_rule_derives(*old(p)) ==> r is Ok,
        r matches Ok(node) ==> list_rule_parse_ok(*old(p), node, *final(p)),
        r matches Err(e) ==> list_rule_parse_err(*old(p), e, *final(p)) && parse_fail(
            e,
            *final(p),
        ),
    decreases scan_measure(*old(p)), 2int,
{
    let begin = p.GetPos();
    match p.MatchAndScan(TokenKind::LPAREN) {
        Ok(_) => {},
        Err(e) => {
            return Err(e);
        },
    }
    proof {
        lemma_scan_ok_measure(*old(p), *p);
    }
    let field = match expect_field(p) {
        Ok(v) => v,
        Err(e) => {
            return Err(e);
        },
    };
    match p.MatchAndScan(TokenKind::COMMA) {
        Ok(_) => {},
        Err(e) => {
            return Err(e);
        },
    }
    let delimiter = match expect_ident(p) {
        Ok(v) => v,
        Err(e) => {
            return Err(e);
        },
    };
    match p.MatchAndScan(TokenKind::COMMA) {
        Ok(_) => {},
        Err(e) => {
            return Err(e);
        },
    }
    let term = match expect_ident(p) {
        Ok(v) => v,
        Err(e) => {
            return Err(e);
        },
    };
    match p.MatchAndScan(TokenKind::RPAREN) {
        Ok(_) => {},
        Err(e) => {
            return Err(e);
        },
    }
    Ok(
        ListRule {
            Pos: PosRange { Begin: begin, End: p.GetPos() },
            Field: field,
            Delimiter: delimiter,
            Term: term,
        },
    )
}

/// Parse one rule element, dispatching on the leading token kind.
fn expect_node(p: &mut Parser) -> (r: Result<Node, ParserError>)
    requires
        old(p).wf(),
    ensures
        expect_frame(*old(p), *final(p)),
        old(p).Token.Kind is Ident && old(p).scan_succeeds() ==> r is Ok,
        field_derives(*old(p)) ==> r is Ok,
        list_rule_derives(*old(p)) ==> r is Ok,
        (exists|n: nat| branch_derives(*old(p), n)) ==> r is Ok,
        r matches Ok(node) ==> node_parse_ok(*old(p), node, *final(p)),
        r matches Err(e) ==> node_parse_err(*old(p), e, *final(p)) && parse_fail(
            e,
            *final(p),
        ),
    decreases scan_measure(*old(p)), 3int,
{
    if tag_matches(&p.Token.Kind, &TokenKind::Ident) {
        match expect_ident(p) {
            Ok(v) => Ok(Node::Ident(Box::new(v))),
            Err(e) => Err(e),
        }
    } else if tag_matches(&p.Token.Kind, &TokenKind::FIELD) {
        match expect_field(p) {
            Ok(v) => Ok(Node::Field(Box::new(v))),
            Err(e) => Err(e),
        }
    } else if tag_matches(&p.Token.Kind, &TokenKind::LBRACE) {
        match expect_branch(p) {
            Ok(v) => Ok(Node::Match(Box::new(v))),
            Err(e) => Err(e),
        }
    } else if tag_matches(&p.Token.Kind, &TokenKind::LPAREN) {
        match expect_list_rule(p) {
            Ok(v) => Ok(Node::ListRule(Box::new(v))),
            Err(e) => Err(e),
        }
    } else {
        Err(
            ParserError::UnexpectedToken(
                UnexpectedTokenError { Want: TokenKind::NoneKind, Have: p.Token.duplicate() },
            ),
        )
    }
}

/// The node is what some successful parse of its own production yields.
pub open spec fn parsed_elem<T: AstNodeParserTrait<T>>(node: T) -> bool {
    exists|a: Parser, b: Parser| T::parse_ok(a, node, b)
}

/// One inner step of a rule-element list parse from state `s`: the
/// element is parsed and the `,` at the lookahead is consumed, so the
/// next element's parse starts at `nxt`. The node and pattern copies of
/// this chain machinery repeat the generic `elem_` form on purpose:
/// phrased through the trait, these specifications would depend on the
/// `Node`/`Pattern` trait implementations, whose bodies depend back on
/// the functions carrying them — a definition cycle the verifier
/// refuses.
pub open spec fn node_step_delim(s: Parser, node: Node, nxt: Parser) -> bool {
    exists|mid: Parser|
        #[trigger] node_parse_ok(s, node, mid) && tag_eq(mid.Token.Kind, TokenKind::COMMA)
            && Parser::scan_ok(mid, nxt)
}

/// The elements of a rule-element list were parsed in source order from
/// consecutive parser states: the first from `pre`, each next from the
/// state just past the delimiter that followed the previous one, and the
/// last ending at `post`, with or without a trailing delimiter.
pub open spec fn node_elems_chained(
    pre: Parser,
    starts: Seq<Parser>,
    elems: Seq<Node>,
    post: Parser,
) -> bool {
    &&& starts.len() == elems.len()
    &&& (elems.len() == 0 ==> post == pre)
    &&& (elems.len() > 0 ==> starts[0] == pre)
    &&& forall|k: int|
        0 <= k < elems.len() - 1 ==> node_step_delim(starts[k], #[trigger] elems[k], starts[k + 1])
    &&& elems.len() > 0 ==> (node_step_delim(starts[elems.len() - 1], elems[elems.len() - 1], post)
        || node_parse_ok(starts[elems.len() - 1], elems[elems.len() - 1], post))
}

/// One inner step of a pattern list parse, with `;` as the delimiter.
pub open spec fn pattern_step_delim(s: Parser, node: Pattern, nxt: Parser) -> bool {
    exists|mid: Parser|
        #[trigger] pattern_parse_ok(s, node, mid) && tag_eq(mid.Token.Kind, TokenKind::SEMICOLON)
            && Parser::scan_ok(mid, nxt)
}

/// The arms of a pattern list were parsed in source order from
/// consecutive parser states.
pub open spec fn pattern_elems_chained(
    pre: Parser,
    starts: Seq<Parser>,
    elems: Seq<Pattern>,
    post: Parser,
) -> bool {
    &&& starts.len() == elems.len()
    &&& (elems.len() == 0 ==> post == pre)
    &&& (elems.len() > 0 ==> starts[0] == pre)
    &&& forall|k: int|
        0 <= k < elems.len() - 1 ==> pattern_step_delim(
            starts[k],
            #[trigger] elems[k],
            starts[k + 1],
        )
    &&& elems.len() > 0 ==> (pattern_step_delim(
        starts[elems.len() - 1],
        elems[elems.len() - 1],
        post,
    ) || pattern_parse_ok(starts[elems.len() - 1], elems[elems.len() - 1], post))
}

/// One inner step of a generic list parse with delimiter `delimiter`.
pub open spec fn elem_step_delim<T: AstNodeParserTrait<T>>(
    s: Parser,
    node: T,
    delimiter: TokenKind,
    nxt: Parser,
) -> bool {
    exists|mid: Parser|
        #[trigger] T::parse_ok(s, node, mid) && tag_eq(mid.Token.Kind, delimiter)
            && Parser::scan_ok(mid, nxt)
}

/// The elements of a generic list were parsed in source order from
/// consecutive parser states, exactly one delimiter consumed between
/// consecutive elements.
pub open spec fn elems_chained<T: AstNodeParserTrait<T>>(
    pre: Parser,
    delimiter: TokenKind,
    starts: Seq<Parser>,
    elems: Seq<T>,
    post: Parser,
) -> bool {
    &&& starts.len() == elems.len()
    &&& (elems.len() == 0 ==> post == pre)
    &&& (elems.len() > 0 ==> starts[0] == pre)
    &&& forall|k: int|
        0 <= k < elems.len() - 1 ==> elem_step_delim(
            starts[k],
            #[trigger] elems[k],
            delimiter,
            starts[k + 1],
        )
    &&& elems.len() > 0 ==> (elem_step_delim(
        starts[elems.len() - 1],
        elems[elems.len() - 1],
        delimiter,
        post,
    ) || T::parse_ok(starts[elems.len() - 1], elems[elems.len() - 1], post))
}

/// The strict form of the chain while a list parse is still running:
/// every element so far, the last included, was followed by a consumed
/// delimiter, and the cursor stands at `cur`.
pub open spec fn node_chain_run(
    pre: Parser,
    starts: Seq<Parser>,
    elems: Seq<Node>,
    cur: Parser,
) -> bool {
    &&& starts.len() == elems.len()
    &&& (elems.len() == 0 ==> cur == pre)
    &&& (elems.len() > 0 ==> starts[0] == pre)
    &&& forall|k: int|
        0 <= k < elems.len() ==> node_step_delim(
            starts[k],
            #[trigger] elems[k],
            if k + 1 < elems.len() {
                starts[k + 1]
            } else {
                cur
            },
        )
}

/// Extending a running chain with one more element whose trailing
/// delimiter was consumed.
pub proof fn lemma_node_chain_extend(
    pre: Parser,
    starts: Seq<Parser>,
    elems: Seq<Node>,
    cur: Parser,
    node: Node,
    nxt: Parser,
)
    requires
        node_chain_run(pre, starts, elems, cur),
        node_step_delim(cur, node, nxt),
    ensures
        node_chain_run(pre, starts.push(cur), elems.push(node), nxt),
{
    let s2 = starts.push(cur);
    let e2 = elems.push(node);
    assert forall|k: int| 0 <= k < e2.len() implies node_step_delim(
        s2[k],
        #[trigger] e2[k],
        if k + 1 < e2.len() {
            s2[k + 1]
        } else {
            nxt
        },
    ) by {
        if k < elems.len() {
            assert(node_step_delim(
                starts[k],
                elems[k],
                if k + 1 < elems.len() {
                    starts[k + 1]
                } else {
                    cur
                },
            ));
        }
    }
}

/// A running chain whose cursor stands at the terminator is a finished
/// chain: its last delimiter was a trailing one.
pub proof fn lemma_node_chain_finish(
    pre: Parser,
    starts: Seq<Parser>,
    elems: Seq<Node>,
    cur: Parser,
)
    requires
        node_chain_run(pre, starts, elems, cur),
    ensures
        node_elems_chained(pre, starts, elems, cur),
{
    assert forall|k: int| 0 <= k < elems.len() - 1 implies node_step_delim(
        starts[k],
        #[trigger] elems[k],
        starts[k + 1],
    ) by {
        assert(node_step_delim(
            starts[k],
            elems[k],
            if k + 1 < elems.len() {
                starts[k + 1]
            } else {
                cur
            },
        ));
    }
}

/// Finishing a running chain with one last element that was not followed
/// by a delimiter.
pub proof fn lemma_node_chain_stop(
    pre: Parser,
    starts: Seq<Parser>,
    elems: Seq<Node>,
    cur: Parser,
    node: Node,
    post: Parser,
)
    requires
        node_chain_run(pre, starts, elems, cur),
        node_parse_ok(cur, node, post),
    ensures
        node_elems_chained(pre, starts.push(cur), elems.push(node), post),
{
    let s2 = starts.push(cur);
    let e2 = elems.push(node);
    assert forall|k: int| 0 <= k < e2.len() - 1 implies node_step_delim(
        s2[k],
        #[trigger] e2[k],
        s2[k + 1],
    ) by {
        assert(node_step_delim(
            starts[k],
            elems[k],
            if k + 1 < elems.len() {
                starts[k + 1]
            } else {
                cur
            },
        ));
    }
}

/// The strict form of the chain while a list parse is still running:
/// every element so far, the last included, was followed by a consumed
/// delimiter, and the cursor stands at `cur`.
pub open spec fn pattern_chain_run(
    pre: Parser,
    starts: Seq<Parser>,
    elems: Seq<Pattern>,
    cur: Parser,
) -> bool {
    &&& starts.len() == elems.len()
    &&& (elems.len() == 0 ==> cur == pre)
    &&& (elems.len() > 0 ==> starts[0] == pre)
    &&& forall|k: int|
        0 <= k < elems.len() ==> pattern_step_delim(
            starts[k],
            #[trigger] elems[k],
            if k + 1 < elems.len() {
                starts[k + 1]
            } else {
                cur
            },
        )
}

/// Extending a running chain with one more element whose trailing
/// delimiter was consumed.
pub proof fn lemma_pattern_chain_extend(
    pre: Parser,
    starts: Seq<Parser>,
    elems: Seq<Pattern>,
    cur: Parser,
    node: Pattern,
    nxt: Parser,
)
    requires
        pattern_chain_run(pre, starts, elems, cur),
        pattern_step_delim(cur, node, nxt),
    ensures
        pattern_chain_run(pre, starts.push(cur), elems.push(node), nxt),
{
    let s2 = starts.push(cur);
    let e2 = elems.push(node);
    assert forall|k: int| 0 <= k < e2.len() implies pattern_step_delim(
        s2[k],
        #[trigger] e2[k],
        if k + 1 < e2.len() {
            s2[k + 1]
        } else {
            nxt
        },
    ) by {
        if k < elems.len() {
            assert(pattern_step_delim(
                starts[k],
                elems[k],
                if k + 1 < elems.len() {
                    starts[k + 1]
                } else {
                    cur
                },
            ));
        }
    }
}

/// A running chain whose cursor stands at the terminator is a finished
/// chain: its last delimiter was a trailing one.
pub proof fn lemma_pattern_chain_finish(
    pre: Parser,
    starts: Seq<Parser>,
    elems: Seq<Pattern>,
    cur: Parser,
)
    requires
        pattern_chain_run(pre, starts, elems, cur),
    ensures
        pattern_elems_chained(pre, starts, elems, cur),
{
    assert forall|k: int| 0 <= k < elems.len() - 1 implies pattern_step_delim(
        starts[k],
        #[trigger] elems[k],
        starts[k + 1],
    ) by {
        assert(pattern_step_delim(
            starts[k],
            elems[k],
            if k + 1 < elems.len() {
                starts[k + 1]
            } else {
                cur
            },
        ));
    }
}

/// Finishing a running chain with one last element that was not followed
/// by a delimiter.
pub proof fn lemma_pattern_chain_stop(
    pre: Parser,
    starts: Seq<Parser>,
    elems: Seq<Pattern>,
    cur: Parser,
    node: Pattern,
    post: Parser,
)
    requires
        pattern_chain_run(pre, starts, elems, cur),
        pattern_parse_ok(cur, node, post),
    ensures
        pattern_elems_chained(pre, starts.push(cur), elems.push(node), post),
{
    let s2 = starts.push(cur);
    let e2 = elems.push(node);
    assert forall|k: int| 0 <= k < e2.len() - 1 implies pattern_step_delim(
        s2[k],
        #[trigger] e2[k],
        s2[k + 1],
    ) by {
        assert(pattern_step_delim(
            starts[k],
            elems[k],
            if k + 1 < elems.len() {
                starts[k + 1]
            } else {
                cur
            },
        ));
    }
}

/// The strict form of the chain while a list parse is still running:
/// every element so far, the last included, was followed by a consumed
/// delimiter, and the cursor stands at `cur`.
pub open spec fn elem_chain_run<T: AstNodeParserTrait<T>>(
    pre: Parser,
    delimiter: TokenKind,
    starts: Seq<Parser>,
    elems: Seq<T>,
    cur: Parser,
) -> bool {
    &&& starts.len() == elems.len()
    &&& (elems.len() == 0 ==> cur == pre)
    &&& (elems.len() > 0 ==> starts[0] == pre)
    &&& forall|k: int|
        0 <= k < elems.len() ==> elem_step_delim(
            starts[k],
            #[trigger] elems[k],
            delimiter,
            if k + 1 < elems.len() {
                starts[k + 1]
            } else {
                cur
            },
        )
}

/// Extending a running chain with one more element whose trailing
/// delimiter was consumed.
pub proof fn lemma_elem_chain_extend<T: AstNodeParserTrait<T>>(
    pre: Parser,
    delimiter: TokenKind,
    starts: Seq<Parser>,
    elems: Seq<T>,
    cur: Parser,
    node: T,
    nxt: Parser,
)
    requires
        elem_chain_run::<T>(pre, delimiter, starts, elems, cur),
        elem_step_delim::<T>(cur, node, delimiter, nxt),
    ensures
        elem_chain_run::<T>(pre, delimiter, starts.push(cur), elems.push(node), nxt),
{
    let s2 = starts.push(cur);
    let e2 = elems.push(node);
    assert forall|k: int| 0 <= k < e2.len() implies elem_step_delim(
        s2[k],
        #[trigger] e2[k],
        delimiter,
        if k + 1 < e2.len() {
            s2[k + 1]
        } else {
            nxt
        },
    ) by {
        if k < elems.len() {
            assert(elem_step_delim(
                starts[k],
                elems[k],
                delimiter,
                if k + 1 < elems.len() {
                    starts[k + 1]
                } else {
                    cur
                },
            ));
        }
    }
}

/// A running chain whose cursor stands at the terminator is a finished
/// chain: its last delimiter was a trailing one.
pub proof fn lemma_elem_chain_finish<T: AstNodeParserTrait<T>>(
    pre: Parser,
    delimiter: TokenKind,
    starts: Seq<Parser>,
    elems: Seq<T>,
    cur: Parser,
)
    requires
        elem_chain_run::<T>(pre, delimiter, starts, elems, cur),
    ensures
        elems_chained::<T>(pre, delimiter, starts, elems, cur),
{
    assert forall|k: int| 0 <= k < elems.len() - 1 implies elem_step_delim(
        starts[k],
        #[trigger] elems[k],
        delimiter,
        starts[k + 1],
    ) by {
        assert(elem_step_delim(
            starts[k],
            elems[k],
            delimiter,
            if k + 1 < elems.len() {
                starts[k + 1]
            } else {
                cur
            },
        ));
    }
}

/// Finishing a running chain with one last element that was not followed
/// by a delimiter.
pub proof fn lemma_elem_chain_stop<T: AstNodeParserTrait<T>>(
    pre: Parser,
    delimiter: TokenKind,
    starts: Seq<Parser>,
    elems: Seq<T>,
    cur: Parser,
    node: T,
    post: Parser,
)
    requires
        elem_chain_run::<T>(pre, delimiter, starts, elems, cur),
        T::parse_ok(cur, node, post),
    ensures
        elems_chained::<T>(pre, delimiter, starts.push(cur), elems.push(node), post),
{
    let s2 = starts.push(cur);
    let e2 = elems.push(node);
    assert forall|k: int| 0 <= k < e2.len() - 1 implies elem_step_delim(
        s2[k],
        #[trigger] e2[k],
        delimiter,
        s2[k + 1],
    ) by {
        assert(elem_step_delim(
            starts[k],
            elems[k],
            delimiter,
            if k + 1 < elems.len() {
                starts[k + 1]
            } else {
                cur
            },
        ));
    }
}

/// A node at the lookahead is owed to parse. The `{` alternative is not
/// covered here: including `branch_derives` would make this definition
/// mutually recursive with the whole derivation tower through
/// `node_list_derives`, so a branch nested inside a rule list is the one
/// shape whose success the list does not owe.
pub open spec fn node_owed(pre: Parser) -> bool {
    (pre.Token.Kind is Ident && pre.scan_succeeds()) || field_derives(pre) || list_rule_derives(
        pre,
    )
}

/// The lookahead stream spells a complete rule-element list of at most
/// `n` elements, each owed to parse and followed by `,` (and the rest of
/// the list) or by the `;` terminator. From such a state the list parse
/// cannot fail.
pub open spec fn node_list_derives(pre: Parser, n: nat) -> bool
    decreases n,
{
    if tag_eq(pre.Token.Kind, TokenKind::SEMICOLON) {
        true
    } else if n == 0 {
        false
    } else {
        node_owed(pre) && (forall|node: Node, mid: Parser|
            #[trigger] node_parse_ok(pre, node, mid) ==> {
                ||| (tag_eq(mid.Token.Kind, TokenKind::COMMA) && mid.scan_succeeds() && (forall|
                    nxt: Parser,
                |
                    #[trigger] Parser::scan_ok(mid, nxt) ==> node_list_derives(
                        nxt,
                        (n - 1) as nat,
                    )))
                ||| (!tag_eq(mid.Token.Kind, TokenKind::COMMA) && tag_eq(
                    mid.Token.Kind,
                    TokenKind::SEMICOLON,
                ))
            })
    }
}

/// The lookahead stream spells a complete pattern arm of at most `n`
/// body elements: an identifier, `=>`, and a rule-element list as
/// `node_list_derives` demands. From such a state the pattern production
/// cannot fail.
pub open spec fn pattern_derives(pre: Parser, n: nat) -> bool {
    &&& pre.Token.Kind is Ident
    &&& pre.scan_succeeds()
    &&& forall|s1: Parser|
        #[trigger] Parser::scan_ok(pre, s1) ==> tag_eq(s1.Token.Kind, TokenKind::ARROW)
            && s1.scan_succeeds() && (forall|s2: Parser|
            #[trigger] Parser::scan_ok(s1, s2) ==> node_list_derives(s2, n))
}

/// The lookahead stream spells a complete definition of at most `n` rule
/// elements: an identifier, `:=`, and a rule-element list as
/// `node_list_derives` demands. From such a state the definition
/// production cannot fail.
pub open spec fn def_derives(pre: Parser, n: nat) -> bool {
    &&& pre.Token.Kind is Ident
    &&& pre.scan_succeeds()
    &&& forall|s1: Parser|
        #[trigger] Parser::scan_ok(pre, s1) ==> tag_eq(s1.Token.Kind, TokenKind::DEFINE)
            && s1.scan_succeeds() && (forall|s2: Parser|
            #[trigger] Parser::scan_ok(s1, s2) ==> node_list_derives(s2, n))
}

/// The lookahead stream spells a complete pattern list of at most `n`
/// arms, each derivable and followed by `;` (and the rest of the list)
/// or by the `}` terminator. From such a state the list parse cannot
/// fail.
pub open spec fn pattern_list_derives(pre: Parser, n: nat) -> bool
    decreases n,
{
    if tag_eq(pre.Token.Kind, TokenKind::RBRACE) {
        true
    } else if n == 0 {
        false
    } else {
        (exists|m: nat| pattern_derives(pre, m)) && (forall|node: Pattern, mid: Parser|
            #[trigger] pattern_parse_ok(pre, node, mid) ==> {
                ||| (tag_eq(mid.Token.Kind, TokenKind::SEMICOLON) && mid.scan_succeeds() && (
                forall|nxt: Parser|
                    #[trigger] Parser::scan_ok(mid, nxt) ==> pattern_list_derives(
                        nxt,
                        (n - 1) as nat,
                    )))
                ||| (!tag_eq(mid.Token.Kind, TokenKind::SEMICOLON) && tag_eq(
                    mid.Token.Kind,
                    TokenKind::RBRACE,
                ))
            })
    }
}

/// The lookahead stream spells a complete branch: `{`, a pattern list as
/// `pattern_list_derives` demands, and the closing `}`, whose
/// consumption also succeeds. From such a state the branch production
/// cannot fail.
pub open spec fn branch_derives(pre: Parser, n: nat) -> bool {
    &&& tag_eq(pre.Token.Kind, TokenKind::LBRACE)
    &&& pre.scan_succeeds()
    &&& forall|s1: Parser|
        #[trigger] Parser::scan_ok(pre, s1) ==> pattern_list_derives(s1, n) && (forall|
            lst: List<Pattern>,
            s2: Parser,
        |
            #[trigger] pattern_list_ok(s1, lst, s2) ==> s2.scan_succeeds())
}

/// How a rule-element list parse fails: a prefix of elements was parsed,
/// each followed by a consumed `,`; from the state after that prefix —
/// whose lookahead is not the `;` terminator — either the next element's
/// parse failed, or it succeeded and the token after it, being neither
/// `,` nor `;`, was rejected as exactly
/// `UnexpectedToken { Want: `;`, Have: that token }` with nothing
/// consumed past it, or a `,` followed and consuming it failed with
/// exactly the scanner's own error.
pub open spec fn node_list_err(pre: Parser, e: ParserError, post: Parser) -> bool {
    exists|starts: Seq<Parser>, elems: Seq<Node>, a: Parser|
        {
            &&& #[trigger] node_chain_run(pre, starts, elems, a)
            &&& !tag_eq(a.Token.Kind, TokenKind::SEMICOLON)
            &&& {
                ||| node_parse_err(a, e, post)
                ||| exists|node: Node, mid: Parser|
                    #[trigger] node_parse_ok(a, node, mid) && !tag_eq(
                        mid.Token.Kind,
                        TokenKind::COMMA,
                    ) && !tag_eq(mid.Token.Kind, TokenKind::SEMICOLON) && post == mid && (e
                        matches ParserError::UnexpectedToken(u) && u.Want == TokenKind::SEMICOLON
                        && tok_eq(u.Have, mid.Token))
                ||| exists|node: Node, mid: Parser|
                    #[trigger] node_parse_ok(a, node, mid) && tag_eq(
                        mid.Token.Kind,
                        TokenKind::COMMA,
                    ) && Parser::scan_err(mid, e, post)
            }
        }
}

/// How a pattern list parse fails, with `;` as the delimiter and `}` as
/// the terminator.
pub open spec fn pattern_list_err(pre: Parser, e: ParserError, post: Parser) -> bool {
    exists|starts: Seq<Parser>, elems: Seq<Pattern>, a: Parser|
        {
            &&& #[trigger] pattern_chain_run(pre, starts, elems, a)
            &&& !tag_eq(a.Token.Kind, TokenKind::RBRACE)
            &&& {
                ||| pattern_parse_err(a, e, post)
                ||| exists|node: Pattern, mid: Parser|
                    #[trigger] pattern_parse_ok(a, node, mid) && !tag_eq(
                        mid.Token.Kind,
                        TokenKind::SEMICOLON,
                    ) && !tag_eq(mid.Token.Kind, TokenKind::RBRACE) && post == mid && (e
                        matches ParserError::UnexpectedToken(u) && u.Want == TokenKind::RBRACE
                        && tok_eq(u.Have, mid.Token))
                ||| exists|node: Pattern, mid: Parser|
                    #[trigger] pattern_parse_ok(a, node, mid) && tag_eq(
                        mid.Token.Kind,
                        TokenKind::SEMICOLON,
                    ) && Parser::scan_err(mid, e, post)
            }
        }
}

/// The lookahead stream spells a complete list of at most `n` elements:
/// either the terminator stands at the lookahead, or an element parse is
/// owed to succeed and is followed by the delimiter (with the rest of
/// the list after it) or by the terminator. From such a state the list
/// parse cannot fail.
pub open spec fn list_derives<T: AstNodeParserTrait<T>>(
    pre: Parser,
    delimiter: TokenKind,
    terminator: TokenKind,
    n: nat,
) -> bool
    decreases n,
{
    if tag_eq(pre.Token.Kind, terminator) {
        true
    } else if n == 0 {
        false
    } else {
        T::success_owed(pre) && (forall|node: T, mid: Parser|
            #[trigger] T::parse_ok(pre, node, mid) ==> {
                ||| (tag_eq(mid.Token.Kind, delimiter) && mid.scan_succeeds() && (forall|
                    nxt: Parser,
                |
                    #[trigger] Parser::scan_ok(mid, nxt) ==> list_derives::<T>(
                        nxt,
                        delimiter,
                        terminator,
                        (n - 1) as nat,
                    )))
                ||| (!tag_eq(mid.Token.Kind, delimiter) && tag_eq(mid.Token.Kind, terminator))
            })
    }
}

/// How a generic list parse fails, in the same three shapes.
pub open spec fn list_expect_err<T: AstNodeParserTrait<T>>(
    pre: Parser,
    delimiter: TokenKind,
    terminator: TokenKind,
    e: ParserError,
    post: Parser,
) -> bool {
    exists|starts: Seq<Parser>, elems: Seq<T>, a: Parser|
        {
            &&& #[trigger] elem_chain_run::<T>(pre, delimiter, starts, elems, a)
            &&& !tag_eq(a.Token.Kind, terminator)
            &&& {
                ||| T::parse_err(a, e, post)
                ||| exists|node: T, mid: Parser|
                    #[trigger] T::parse_ok(a, node, mid) && !tag_eq(mid.Token.Kind, delimiter)
                        && !tag_eq(mid.Token.Kind, terminator) && post == mid && (e matches
                        ParserError::UnexpectedToken(u) && u.Want == terminator && tok_eq(
                        u.Have,
                        mid.Token,
                    ))
                ||| exists|node: T, mid: Parser|
                    #[trigger] T::parse_ok(a, node, mid) && tag_eq(mid.Token.Kind, delimiter)
                        && Parser::scan_err(mid, e, post)
            }
        }
}

/// What a successful parse of the `,`-delimited, `;`-terminated rule-element
/// list guarantees.
pub open spec fn node_list_ok(pre: Parser, list: List<Node>, post: Parser) -> bool {
    &&& list.Delimiter == TokenKind::COMMA
    &&& list.Term == TokenKind::SEMICOLON
    &&& tag_eq(post.Token.Kind, TokenKind::SEMICOLON)
    &&& spans(pre, list.Pos, post)
    &&& forall|k: int| 0 <= k < list.Elements@.len() ==> parsed_node(#[trigger] list.Elements@[k])
    &&& exists|starts: Seq<Parser>| node_elems_chained(pre, starts, list.Elements@, post)
    &&& tag_eq(pre.Token.Kind, TokenKind::SEMICOLON) ==> list.Elements@.len() == 0 && post == pre
}

/// What a successful parse of the `;`-delimited, `}`-terminated pattern
/// list guarantees.
pub open spec fn pattern_list_ok(pre: Parser, list: List<Pattern>, post: Parser) -> bool {
    &&& list.Delimiter == TokenKind::SEMICOLON
    &&& list.Term == TokenKind::RBRACE
    &&& tag_eq(post.Token.Kind, TokenKind::RBRACE)
    &&& spans(pre, list.Pos, post)
    &&& forall|k: int|
        0 <= k < list.Elements@.len() ==> parsed_pattern(#[trigger] list.Elements@[k])
    &&& exists|starts: Seq<Parser>| pattern_elems_chained(pre, starts, list.Elements@, post)
    &&& tag_eq(pre.Token.Kind, TokenKind::RBRACE) ==> list.Elements@.len() == 0 && post == pre
}

/// What a successful list parse guarantees: the recorded delimiter and
/// terminator, the span, the unconsumed terminator at the lookahead,
/// every element the yield of its own production, and that a list opened
/// at its terminator is empty and touches nothing.
pub open spec fn list_expect_ok<T: AstNodeParserTrait<T>>(
    pre: Parser,
    delimiter: TokenKind,
    terminator: TokenKind,
    list: List<T>,
    post: Parser,
) -> bool {
    &&& list.Delimiter == delimiter
    &&& list.Term == terminator
    &&& tag_eq(post.Token.Kind, terminator)
    &&& spans(pre, list.Pos, post)
    &&& forall|k: int|
        0 <= k < list.Elements@.len() ==> parsed_elem::<T>(#[trigger] list.Elements@[k])
    &&& exists|starts: Seq<Parser>| elems_chained::<T>(pre, delimiter, starts, list.Elements@, post)
    &&& tag_eq(pre.Token.Kind, terminator) ==> list.Elements@.len() == 0 && post == pre
}

/// Parse a `,`-delimited, `;`-terminated list of rule elements.
#[verifier::rlimit(100)]
fn expect_node_list(p: &mut Parser) -> (r: Result<List<Node>, ParserError>)
    requires
        old(p).wf(),
    ensures
        expect_frame(*old(p), *final(p)),
        tag_eq(old(p).Token.Kind, TokenKind::SEMICOLON) ==> r is Ok,
        (exists|n: nat| node_list_derives(*old(p), n)) ==> r is Ok,
        r matches Ok(list) ==> node_list_ok(*old(p), list, *final(p)),
        r matches Err(e) ==> node_list_err(*old(p), e, *final(p)) && parse_fail(e, *final(p)),
    decreases scan_measure(*old(p)), 4int,
{
    let begin = p.GetPos();
    let mut list: Vec<Node> = Vec::new();
    let ghost mut starts: Seq<Parser> = Seq::empty();
    loop
        invariant_except_break
            node_chain_run(*old(p), starts, list@, *p),
            (exists|n: nat| node_list_derives(*old(p), n)) ==> (exists|n: nat|
                node_list_derives(*p, n)),
        invariant
            old(p).wf(),
            p.wf(),
            p.buf() == old(p).buf(),
            old(p).off() <= p.off(),
            scan_measure(*p) <= scan_measure(*old(p)),
            begin == old(p).Scanner.BufferScanner.Pos,
            list@.len() == 0 ==> *p == *old(p),
            tag_eq(old(p).Token.Kind, TokenKind::SEMICOLON) ==> list@.len() == 0,
            forall|k: int| 0 <= k < list@.len() ==> parsed_node(#[trigger] list@[k]),
            starts.len() == list@.len(),
            list@.len() > 0 ==> starts[0] == *old(p),
        ensures
            p.wf(),
            p.buf() == old(p).buf(),
            old(p).off() <= p.off(),
            scan_measure(*p) <= scan_measure(*old(p)),
            begin == old(p).Scanner.BufferScanner.Pos,
            tag_eq(p.Token.Kind, TokenKind::SEMICOLON),
            tag_eq(old(p).Token.Kind, TokenKind::SEMICOLON) ==> list@.len() == 0 && *p == *old(p),
            forall|k: int| 0 <= k < list@.len() ==> parsed_node(#[trigger] list@[k]),
            node_elems_chained(*old(p), starts, list@, *p),
        decreases scan_measure(*p),
    {
        if tag_matches(&p.Token.Kind, &TokenKind::SEMICOLON) {
            proof {
                lemma_node_chain_finish(*old(p), starts, list@, *p);
            }
            break ;
        }
        let ghost pre_el = *p;
        proof {
            assert((exists|n: nat| node_list_derives(*old(p), n)) ==> node_owed(pre_el)) by {
                if exists|n: nat| node_list_derives(*old(p), n) {
                    let n1 = choose|n: nat| node_list_derives(pre_el, n);
                    assert(node_list_derives(pre_el, n1));
                }
            }
        }
        let node = match expect_node(p) {
            Ok(v) => v,
            Err(e) => {
                proof {
                    assert(node_chain_run(*old(p), starts, list@, pre_el));
                    assert(node_list_err(*old(p), e, *p));
                }
                return Err(e);
            },
        };
        let ghost mid0 = *p;
        proof {
            assert(node_parse_ok(pre_el, node, *p));
            assert(parsed_node(node));
            assert((exists|n: nat| node_list_derives(*old(p), n)) ==> ({
                ||| (tag_eq(mid0.Token.Kind, TokenKind::COMMA) && mid0.scan_succeeds() && (forall|
                    nxt: Parser,
                |
                    #[trigger] Parser::scan_ok(mid0, nxt) ==> (exists|m: nat|
                        node_list_derives(nxt, m))))
                ||| (!tag_eq(mid0.Token.Kind, TokenKind::COMMA) && tag_eq(
                    mid0.Token.Kind,
                    TokenKind::SEMICOLON,
                ))
            })) by {
                if exists|n: nat| node_list_derives(*old(p), n) {
                    let n1 = choose|n: nat| node_list_derives(pre_el, n);
                    assert(node_list_derives(pre_el, n1));
                    assert(node_parse_ok(pre_el, node, mid0));
                    if tag_eq(mid0.Token.Kind, TokenKind::COMMA) {
                        assert(mid0.scan_succeeds());
                        assert forall|nxt: Parser| #[trigger] Parser::scan_ok(mid0, nxt) implies (
                        exists|m: nat| node_list_derives(nxt, m)) by {
                            assert(node_list_derives(nxt, (n1 - 1) as nat));
                        }
                    }
                }
            }
        }
        if tag_matches(&p.Token.Kind, &TokenKind::COMMA) {
            let ghost mid = *p;
            match p.Scan() {
                Ok(_) => {},
                Err(e) => {
                    proof {
                        assert(node_chain_run(*old(p), starts, list@, pre_el));
                        assert(node_parse_ok(pre_el, node, mid));
                        assert(node_list_err(*old(p), e, *p));
                    }
                    return Err(e);
                },
            }
            proof {
                lemma_scan_ok_measure(mid, *p);
                assert(node_step_delim(pre_el, node, *p));
                lemma_node_chain_extend(*old(p), starts, list@, pre_el, node, *p);
                starts = starts.push(pre_el);
            }
            list.push(node);
        } else {
            match p.Match(TokenKind::SEMICOLON) {
                Ok(()) => {},
                Err(e) => {
                    proof {
                        assert(node_chain_run(*old(p), starts, list@, pre_el));
                        assert(node_list_err(*old(p), e, *p));
                    }
                    return Err(e);
                },
            }
            proof {
                lemma_node_chain_stop(*old(p), starts, list@, pre_el, node, *p);
                starts = starts.push(pre_el);
            }
            list.push(node);
            break ;
        }
    }
    proof {
        assert(exists|st: Seq<Parser>| node_elems_chained(*old(p), st, list@, *p)) by {
            assert(node_elems_chained(*old(p), starts, list@, *p));
        }
    }
    Ok(
        List {
            Pos: PosRange { Begin: begin, End: p.GetPos() },
            Elements: list,
            Delimiter: TokenKind::COMMA,
            Term: TokenKind::SEMICOLON,
        },
    )
}

/// Parse a `;`-delimited, `}`-terminated list of pattern arms.
#[verifier::rlimit(100)]
fn expect_pattern_list(p: &mut Parser) -> (r: Result<List<Pattern>, ParserError>)
    requires
        old(p).wf(),
    ensures
        expect_frame(*old(p), *final(p)),
        tag_eq(old(p).Token.Kind, TokenKind::RBRACE) ==> r is Ok,
        (exists|n: nat| pattern_list_derives(*old(p), n)) ==> r is Ok,
        r matches Ok(list) ==> pattern_list_ok(*old(p), list, *final(p)),
        r matches Err(e) ==> pattern_list_err(*old(p), e, *final(p)) && parse_fail(
            e,
            *final(p),
        ),
    decreases scan_measure(*old(p)), 2int,
{
    let begin = p.GetPos();
    let mut list: Vec<Pattern> = Vec::new();
    let ghost mut starts: Seq<Parser> = Seq::empty();
    loop
        invariant_except_break
            pattern_chain_run(*old(p), starts, list@, *p),
            (exists|n: nat| pattern_list_derives(*old(p), n)) ==> (exists|n: nat|
                pattern_list_derives(*p, n)),
        invariant
            old(p).wf(),
            p.wf(),
            p.buf() == old(p).buf(),
            old(p).off() <= p.off(),
            scan_measure(*p) <= scan_measure(*old(p)),
            begin == old(p).Scanner.BufferScanner.Pos,
            list@.len() == 0 ==> *p == *old(p),
            tag_eq(old(p).Token.Kind, TokenKind::RBRACE) ==> list@.len() == 0,
            forall|k: int| 0 <= k < list@.len() ==> parsed_pattern(#[trigger] list@[k]),
            starts.len() == list@.len(),
            list@.len() > 0 ==> starts[0] == *old(p),
        ensures
            p.wf(),
            p.buf() == old(p).buf(),
            old(p).off() <= p.off(),
            scan_measure(*p) <= scan_measure(*old(p)),
            begin == old(p).Scanner.BufferScanner.Pos,
            tag_eq(p.Token.Kind, TokenKind::RBRACE),
            tag_eq(old(p).Token.Kind, TokenKind::RBRACE) ==> list@.len() == 0 && *p == *old(p),
            forall|k: int| 0 <= k < list@.len() ==> parsed_pattern(#[trigger] list@[k]),
            pattern_elems_chained(*old(p), starts, list@, *p),
        decreases scan_measure(*p),
    {
        if tag_matches(&p.Token.Kind, &TokenKind::RBRACE) {
            proof {
                lemma_pattern_chain_finish(*old(p), starts, list@, *p);
            }
            break ;
        }
        let ghost pre_el = *p;
        proof {
            assert((exists|n: nat| pattern_list_derives(*old(p), n)) ==> (exists|m: nat|
                pattern_derives(pre_el, m))) by {
                if exists|n: nat| pattern_list_derives(*old(p), n) {
                    let n1 = choose|n: nat| pattern_list_derives(pre_el, n);
                    assert(pattern_list_derives(pre_el, n1));
                }
            }
        }
        let node = match expect_pattern(p) {
            Ok(v) => v,
            Err(e) => {
                proof {
                    assert(pattern_chain_run(*old(p), starts, list@, pre_el));
                    assert(pattern_list_err(*old(p), e, *p));
                }
                return Err(e);
            },
        };
        let ghost mid0 = *p;
        proof {
            assert(pattern_parse_ok(pre_el, node, *p));
            assert(parsed_pattern(node));
            assert((exists|n: nat| pattern_list_derives(*old(p), n)) ==> ({
                ||| (tag_eq(mid0.Token.Kind, TokenKind::SEMICOLON) && mid0.scan_succeeds() && (
                forall|nxt: Parser|
                    #[trigger] Parser::scan_ok(mid0, nxt) ==> (exists|m: nat|
                        pattern_list_derives(nxt, m))))
                ||| (!tag_eq(mid0.Token.Kind, TokenKind::SEMICOLON) && tag_eq(
                    mid0.Token.Kind,
                    TokenKind::RBRACE,
                ))
            })) by {
                if exists|n: nat| pattern_list_derives(*old(p), n) {
                    let n1 = choose|n: nat| pattern_list_derives(pre_el, n);
                    assert(pattern_list_derives(pre_el, n1));
                    assert(pattern_parse_ok(pre_el, node, mid0));
                    if tag_eq(mid0.Token.Kind, TokenKind::SEMICOLON) {
                        assert(mid0.scan_succeeds());
                        assert forall|nxt: Parser| #[trigger] Parser::scan_ok(mid0, nxt) implies (
                        exists|m: nat| pattern_list_derives(nxt, m)) by {
                            assert(pattern_list_derives(nxt, (n1 - 1) as nat));
                        }
                    }
                }
            }
        }
        if tag_matches(&p.Token.Kind, &TokenKind::SEMICOLON) {
            let ghost mid = *p;
            match p.Scan() {
                Ok(_) => {},
                Err(e) => {
                    proof {
                        assert(pattern_chain_run(*old(p), starts, list@, pre_el));
                        assert(pattern_parse_ok(pre_el, node, mid));
                        assert(pattern_list_err(*old(p), e, *p));
                    }
                    return Err(e);
                },
            }
            proof {
                lemma_scan_ok_measure(mid, *p);
                assert(pattern_step_delim(pre_el, node, *p));
                lemma_pattern_chain_extend(*old(p), starts, list@, pre_el, node, *p);
                starts = starts.push(pre_el);
            }
            list.push(node);
        } else {
            match p.Match(TokenKind::RBRACE) {
                Ok(()) => {},
                Err(e) => {
                    proof {
                        assert(pattern_chain_run(*old(p), starts, list@, pre_el));
                        assert(pattern_list_err(*old(p), e, *p));
                    }
                    return Err(e);
                },
            }
            proof {
                lemma_pattern_chain_stop(*old(p), starts, list@, pre_el, node, *p);
                starts = starts.push(pre_el);
            }
            list.push(node);
            break ;
        }
    }
    proof {
        assert(exists|st: Seq<Parser>| pattern_elems_chained(*old(p), st, list@, *p)) by {
            assert(pattern_elems_chained(*old(p), starts, list@, *p));
        }
    }
    Ok(
        List {
            Pos: PosRange { Begin: begin, End: p.GetPos() },
            Elements: list,
            Delimiter: TokenKind::SEMICOLON,
            Term: TokenKind::RBRACE,
        },
    )
}

/// Parse one `name := rule` definition.
fn expect_def(p: &mut Parser) -> (r: Result<Def, ParserError>)
    requires
        old(p).wf(),
    ensures
        expect_frame(*old(p), *final(p)),
        (exists|n: nat| def_derives(*old(p), n)) ==> r is Ok,
        r matches Ok(node) ==> def_parse_ok(*old(p), node, *final(p)),
        r matches Err(e) ==> def_parse_err(*old(p), e, *final(p)) && parse_fail(
            e,
            *final(p),
        ),
    decreases scan_measure(*old(p)), 5int,
{
    let begin = p.GetPos();
    proof {
        assert((exists|n: nat| def_derives(*old(p), n)) ==> (old(p).Token.Kind is Ident
            && old(p).scan_succeeds())) by {
            if exists|n: nat| def_derives(*old(p), n) {
                let n1 = choose|n: nat| def_derives(*old(p), n);
                assert(def_derives(*old(p), n1));
            }
        }
    }
    let name = match expect_ident(p) {
        Ok(v) => v,
        Err(e) => {
            return Err(e);
        },
    };
    let ghost mid = *p;
    proof {
        assert((exists|n: nat| def_derives(*old(p), n)) ==> (tag_eq(
            mid.Token.Kind,
            TokenKind::DEFINE,
        ) && mid.scan_succeeds())) by {
            if exists|n: nat| def_derives(*old(p), n) {
                let n1 = choose|n: nat| def_derives(*old(p), n);
                assert(def_derives(*old(p), n1));
                assert(Parser::scan_ok(*old(p), mid));
            }
        }
    }
    match p.MatchAndScan(TokenKind::DEFINE) {
        Ok(_) => {},
        Err(e) => {
            return Err(e);
        },
    }
    proof {
        lemma_scan_ok_measure(mid, *p);
    }
    let ghost m2 = *p;
    proof {
        assert((exists|n: nat| def_derives(*old(p), n)) ==> (exists|m: nat|
            node_list_derives(m2, m))) by {
            if exists|n: nat| def_derives(*old(p), n) {
                let n1 = choose|n: nat| def_derives(*old(p), n);
                assert(def_derives(*old(p), n1));
                assert(Parser::scan_ok(*old(p), mid));
                assert(Parser::scan_ok(mid, m2));
                assert(node_list_derives(m2, n1));
            }
        }
    }
    let rule = match expect_node_list(p) {
        Ok(v) => v,
        Err(e) => {
            return Err(e);
        },
    };
    proof {
        assert(Parser::scan_ok(*old(p), mid));
        assert(Parser::scan_ok(mid, m2));
        assert(node_list_ok(m2, rule, *p));
    }
    Ok(Def { Pos: PosRange { Begin: begin, End: p.GetPos() }, Name: name, Rule: rule })
}

/// A parser for one AST node type, with one token of lookahead.
pub trait AstNodeParserTrait<T>: Sized {
    /// What a successful parse says of the node's contents and of the
    /// parser's movement.
    spec fn parse_ok(pre: Parser, node: T, post: Parser) -> bool;

    /// What a failed parse leaves behind, beyond `parse_fail`.
    spec fn parse_err(pre: Parser, e: ParserError, post: Parser) -> bool;

    /// A state from which this production cannot fail.
    spec fn success_owed(pre: Parser) -> bool;

    /// Parse one node at the lookahead.
    fn Expect(p: &mut Parser) -> (r: Result<T, ParserError>)
        requires
            old(p).wf(),
        ensures
            expect_frame(*old(p), *final(p)),
            Self::success_owed(*old(p)) ==> r is Ok,
            r matches Ok(node) ==> Self::parse_ok(*old(p), node, *final(p)),
            r matches Err(e) ==> Self::parse_err(*old(p), e, *final(p)) && parse_fail(
                e,
                *final(p),
            ),
    ;
}

impl<T: AstNodeParserTrait<T>> List<T> {
    /// Parse `element (delimiter element)* [delimiter]` up to, but never
    /// consuming, the terminator: on success the lookahead still matches
    /// `terminator`, so the enclosing production consumes it exactly once
    /// at its own nesting depth, even where an inner list's terminator is
    /// the outer list's delimiter.
    #[verifier::rlimit(100)]
    pub fn Expect(p: &mut Parser, delimiter: TokenKind, terminator: TokenKind) -> (r: Result<
        List<T>,
        ParserError,
    >)
        requires
            old(p).wf(),
        ensures
            expect_frame(*old(p), *final(p)),
            tag_eq(old(p).Token.Kind, terminator) ==> r is Ok,
            (exists|n: nat| list_derives::<T>(*old(p), delimiter, terminator, n)) ==> r is Ok,
            r matches Ok(list) ==> list_expect_ok(
                *old(p),
                delimiter,
                terminator,
                list,
                *final(p),
            ),
            r matches Err(e) ==> list_expect_err::<T>(
                *old(p),
                delimiter,
                terminator,
                e,
                *final(p),
            ) && parse_fail(e, *final(p)),
    {
        let begin = p.GetPos();
        let mut list: Vec<T> = Vec::new();
        let ghost mut starts: Seq<Parser> = Seq::empty();
        loop
            invariant_except_break
                elem_chain_run::<T>(*old(p), delimiter, starts, list@, *p),
                (exists|n: nat| list_derives::<T>(*old(p), delimiter, terminator, n)) ==> (exists|
                    n: nat,
                | list_derives::<T>(*p, delimiter, terminator, n)),
            invariant
                old(p).wf(),
                p.wf(),
                p.buf() == old(p).buf(),
                old(p).off() <= p.off(),
                scan_measure(*p) <= scan_measure(*old(p)),
                begin == old(p).Scanner.BufferScanner.Pos,
                list@.len() == 0 ==> *p == *old(p),
                tag_eq(old(p).Token.Kind, terminator) ==> list@.len() == 0,
                forall|k: int| 0 <= k < list@.len() ==> parsed_elem::<T>(#[trigger] list@[k]),
                starts.len() == list@.len(),
                list@.len() > 0 ==> starts[0] == *old(p),
            ensures
                p.wf(),
                p.buf() == old(p).buf(),
                old(p).off() <= p.off(),
                scan_measure(*p) <= scan_measure(*old(p)),
                begin == old(p).Scanner.BufferScanner.Pos,
                tag_eq(p.Token.Kind, terminator),
                tag_eq(old(p).Token.Kind, terminator) ==> list@.len() == 0 && *p == *old(p),
                forall|k: int| 0 <= k < list@.len() ==> parsed_elem::<T>(#[trigger] list@[k]),
                elems_chained::<T>(*old(p), delimiter, starts, list@, *p),
            decreases scan_measure(*p),
        {
            if tag_matches(&p.Token.Kind, &terminator) {
                proof {
                    lemma_elem_chain_finish::<T>(*old(p), delimiter, starts, list@, *p);
                }
                break ;
            }
            let ghost pre_el = *p;
            proof {
                assert((exists|n: nat| list_derives::<T>(*old(p), delimiter, terminator, n))
                    ==> T::success_owed(pre_el)) by {
                    if exists|n: nat| list_derives::<T>(*old(p), delimiter, terminator, n) {
                        let n1 = choose|n: nat|
                            list_derives::<T>(pre_el, delimiter, terminator, n);
                        assert(list_derives::<T>(pre_el, delimiter, terminator, n1));
                    }
                }
            }
            let node = match T::Expect(p) {
                Ok(v) => v,
                Err(e) => {
                    proof {
                        assert(elem_chain_run::<T>(*old(p), delimiter, starts, list@, pre_el));
                        assert(list_expect_err::<T>(*old(p), delimiter, terminator, e, *p));
                    }
                    return Err(e);
                },
            };
            let ghost mid0 = *p;
            proof {
                assert(T::parse_ok(pre_el, node, *p));
                assert(parsed_elem::<T>(node));
                assert((exists|n: nat| list_derives::<T>(*old(p), delimiter, terminator, n))
                    ==> ({
                    ||| (tag_eq(mid0.Token.Kind, delimiter) && mid0.scan_succeeds() && (forall|
                        nxt: Parser,
                    |
                        #[trigger] Parser::scan_ok(mid0, nxt) ==> (exists|m: nat|
                            list_derives::<T>(nxt, delimiter, terminator, m))))
                    ||| (!tag_eq(mid0.Token.Kind, delimiter) && tag_eq(
                        mid0.Token.Kind,
                        terminator,
                    ))
                })) by {
                    if exists|n: nat| list_derives::<T>(*old(p), delimiter, terminator, n) {
                        let n1 = choose|n: nat|
                            list_derives::<T>(pre_el, delimiter, terminator, n);
                        assert(list_derives::<T>(pre_el, delimiter, terminator, n1));
                        assert(T::parse_ok(pre_el, node, mid0));
                        if tag_eq(mid0.Token.Kind, delimiter) {
                            assert(mid0.scan_succeeds());
                            assert forall|nxt: Parser| #[trigger] Parser::scan_ok(mid0, nxt)
                                implies (exists|m: nat|
                                list_derives::<T>(nxt, delimiter, terminator, m)) by {
                                assert(list_derives::<T>(
                                    nxt,
                                    delimiter,
                                    terminator,
                                    (n1 - 1) as nat,
                                ));
                            }
                        }
                    }
                }
            }
            if tag_matches(&p.Token.Kind, &delimiter) {
                let ghost mid = *p;
                match p.Scan() {
                    Ok(_) => {},
                    Err(e) => {
                        proof {
                            assert(elem_chain_run::<T>(*old(p), delimiter, starts, list@, pre_el));
                            assert(T::parse_ok(pre_el, node, mid));
                            assert(list_expect_err::<T>(*old(p), delimiter, terminator, e, *p));
                        }
                        return Err(e);
                    },
                }
                proof {
                    lemma_scan_ok_measure(mid, *p);
                    assert(elem_step_delim(pre_el, node, delimiter, *p));
                    lemma_elem_chain_extend::<T>(*old(p), delimiter, starts, list@, pre_el, node, *p);
                    starts = starts.push(pre_el);
                }
                list.push(node);
            } else {
                match p.Match(terminator) {
                    Ok(()) => {},
                    Err(e) => {
                        proof {
                            assert(elem_chain_run::<T>(*old(p), delimiter, starts, list@, pre_el));
                            assert(list_expect_err::<T>(*old(p), delimiter, terminator, e, *p));
                        }
                        return Err(e);
                    },
                }
                proof {
                    lemma_elem_chain_stop::<T>(*old(p), delimiter, starts, list@, pre_el, node, *p);
                    starts = starts.push(pre_el);
                }
                list.push(node);
                break ;
            }
        }
        proof {
            assert(exists|st: Seq<Parser>|
                elems_chained::<T>(*old(p), delimiter, st, list@, *p)) by {
                assert(elems_chained::<T>(*old(p), delimiter, starts, list@, *p));
            }
        }
        Ok(
            List {
                Pos: PosRange { Begin: begin, End: p.GetPos() },
                Elements: list,
                Delimiter: delimiter,
                Term: terminator,
            },
        )
    }
}

impl AstNodeParserTrait<Ident> for Ident {
    open spec fn parse_ok(pre: Parser, node: Ident, post: Parser) -> bool {
        ident_parse_ok(pre, node, post)
    }

    open spec fn parse_err(pre: Parser, e: ParserError, post: Parser) -> bool {
        ident_expect_err(pre, e, post)
    }

    open spec fn success_owed(pre: Parser) -> bool {
        pre.Token.Kind is Ident && pre.scan_succeeds()
    }

    fn Expect(p: &mut Parser) -> (r: Result<Ident, ParserError>) {
        expect_ident(p)
    }
}

impl AstNodeParserTrait<Field> for Field {
    open spec fn parse_ok(pre: Parser, node: Field, post: Parser) -> bool {
        field_parse_ok(pre, node, post)
    }

    open spec fn parse_err(pre: Parser, e: ParserError, post: Parser) -> bool {
        field_parse_err(pre, e, post)
    }

    open spec fn success_owed(pre: Parser) -> bool {
        field_derives(pre)
    }

    fn Expect(p: &mut Parser) -> (r: Result<Field, ParserError>) {
        expect_field(p)
    }
}

impl AstNodeParserTrait<Pattern> for Pattern {
    open spec fn parse_ok(pre: Parser, node: Pattern, post: Parser) -> bool {
        pattern_parse_ok(pre, node, post)
    }

    open spec fn parse_err(pre: Parser, e: ParserError, post: Parser) -> bool {
        pattern_parse_err(pre, e, post)
    }

    open spec fn success_owed(pre: Parser) -> bool {
        exists|n: nat| pattern_derives(pre, n)
    }

    fn Expect(p: &mut Parser) -> (r: Result<Pattern, ParserError>) {
        expect_pattern(p)
    }
}

impl AstNodeParserTrait<Branch> for Branch {
    open spec fn parse_ok(pre: Parser, node: Branch, post: Parser) -> bool {
        branch_parse_ok(pre, node, post)
    }

    open spec fn parse_err(pre: Parser, e: ParserError, post: Parser) -> bool {
        branch_parse_err(pre, e, post)
    }

    open spec fn success_owed(pre: Parser) -> bool {
        exists|n: nat| branch_derives(pre, n)
    }

    fn Expect(p: &mut Parser) -> (r: Result<Branch, ParserError>) {
        expect_branch(p)
    }
}

impl AstNodeParserTrait<ListRule> for ListRule {
    open spec fn parse_ok(pre: Parser, node: ListRule, post: Parser) -> bool {
        list_rule_parse_ok(pre, node, post)
    }

    open spec fn parse_err(pre: Parser, e: ParserError, post: Parser) -> bool {
        list_rule_parse_err(pre, e, post)
    }

    open spec fn success_owed(pre: Parser) -> bool {
        list_rule_derives(pre)
    }

    fn Expect(p: &mut Parser) -> (r: Result<ListRule, ParserError>) {
        expect_list_rule(p)
    }
}

impl AstNodeParserTrait<Node> for Node {
    open spec fn parse_ok(pre: Parser, node: Node, post: Parser) -> bool {
        node_parse_ok(pre, node, post)
    }

    open spec fn parse_err(pre: Parser, e: ParserError, post: Parser) -> bool {
        node_parse_err(pre, e, post)
    }

    open spec fn success_owed(pre: Parser) -> bool {
        (pre.Token.Kind is Ident && pre.scan_succeeds()) || field_derives(pre)
            || list_rule_derives(pre) || (exists|n: nat| branch_derives(pre, n))
    }

    fn Expect(p: &mut Parser) -> (r: Result<Node, ParserError>) {
        expect_node(p)
    }
}

impl AstNodeParserTrait<Def> for Def {
    open spec fn parse_ok(pre: Parser, node: Def, post: Parser) -> bool {
        def_parse_ok(pre, node, post)
    }

    open spec fn parse_err(pre: Parser, e: ParserError, post: Parser) -> bool {
        def_parse_err(pre, e, post)
    }

    open spec fn success_owed(pre: Parser) -> bool {
        exists|n: nat| def_derives(pre, n)
    }

    fn Expect(p: &mut Parser) -> (r: Result<Def, ParserError>) {
        expect_def(p)
    }
}

impl AstNodeParserTrait<File> for File {
    open spec fn parse_ok(pre: Parser, node: File, post: Parser) -> bool {
        file_parse_ok(pre, node, post)
    }

    open spec fn parse_err(pre: Parser, e: ParserError, post: Parser) -> bool {
        file_parse_err(pre, e, post)
    }

    /// A file parses whenever its definition list does: at once at end of
    /// input, and on any stream the list production derives.
    open spec fn success_owed(pre: Parser) -> bool {
        pre.Token.Kind is EOF || (exists|n: nat|
            list_derives::<Def>(pre, TokenKind::SEMICOLON, TokenKind::EOF, n))
    }

    fn Expect(p: &mut Parser) -> (r: Result<File, ParserError>) {
        let begin = p.GetPos();
        let definitions = match List::<Def>::Expect(p, TokenKind::SEMICOLON, TokenKind::EOF) {
            Ok(v) => v,
            Err(e) => {
                return Err(e);
            },
        };
        Ok(File { Pos: PosRange { Begin: begin, End: p.GetPos() }, Definitions: definitions })
    }
}

} // verus!
