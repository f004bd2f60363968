//! The raw internal results, and exception extraction.

use ftml::callbacks::NullCallbacks;
use ftml::parsing::{build_syntax_tree, extract_exceptions, parse_internal, UnstructuredParseResult};
use ftml::settings::{PageInfo, WikitextSettings};
use ftml::token::{ExtractedToken, Token, Tokenization};
use ftml::tree::Element;
use ftml::warning::{ParseException, ParseSuccess, ParseWarning, ParseWarningKind};

fn tok(token: Token, slice: &str, start: usize, end: usize) -> ExtractedToken {
    ExtractedToken { token, slice: slice.to_owned(), span_start: start, span_end: end }
}

fn warning(kind: ParseWarningKind) -> ParseWarning {
    ParseWarning {
        kind,
        token: Token::Word,
        rule: "test-rule".to_owned(),
        span_start: 0,
        span_end: 1,
    }
}

#[test]
fn manual_breaks_are_dropped_from_warnings() {
    let exceptions = vec![
        ParseException::Warning(warning(ParseWarningKind::RuleFailed)),
        ParseException::Warning(warning(ParseWarningKind::ManualBreak)),
        ParseException::Warning(warning(ParseWarningKind::EndOfInput)),
    ];
    let warnings = extract_exceptions(exceptions);
    assert_eq!(warnings.len(), 2);
    assert_eq!(warnings[0].kind, ParseWarningKind::RuleFailed);
    assert_eq!(warnings[1].kind, ParseWarningKind::EndOfInput);
}

#[test]
fn input_without_footnote_words_marks_nothing() {
    let tokens = vec![
        tok(Token::Word, "plain", 0, 5),
        tok(Token::Whitespace, " ", 5, 6),
        tok(Token::Word, "text", 6, 10),
    ];
    let tokenization = Tokenization { text: "plain text".to_owned(), tokens };
    let info = PageInfo::with_tags(Vec::new());
    let settings = WikitextSettings::ordinary();
    let raw = parse_internal(&info, &NullCallbacks, &settings, &tokenization);
    assert!(raw.footnotes.is_empty());
    assert!(!raw.has_footnote_block);
    assert!(raw.result.is_ok());
}

#[test]
fn footnote_input_fills_the_accumulator() {
    let tokens = vec![
        tok(Token::LeftBlock, "[[", 0, 2),
        tok(Token::Word, "footnote", 2, 10),
        tok(Token::RightBlock, "]]", 10, 12),
        tok(Token::Word, "n", 12, 13),
        tok(Token::LeftBlockEnd, "[[/", 13, 16),
        tok(Token::Word, "footnote", 16, 24),
        tok(Token::RightBlock, "]]", 24, 26),
    ];
    let tokenization = Tokenization { text: "[[footnote]]n[[/footnote]]".to_owned(), tokens };
    let info = PageInfo::with_tags(Vec::new());
    let settings = WikitextSettings::ordinary();
    let raw = parse_internal(&info, &NullCallbacks, &settings, &tokenization);
    assert_eq!(raw.footnotes.len(), 1);
    assert!(!raw.has_footnote_block);
    assert!(raw.result.is_ok());
}

#[test]
fn toc_depths_carry_heading_levels() {
    let tokens = vec![
        tok(Token::Heading, "+++", 0, 3),
        tok(Token::Whitespace, " ", 3, 4),
        tok(Token::Word, "Deep", 4, 8),
    ];
    let tokenization = Tokenization { text: "+++ Deep".to_owned(), tokens };
    let info = PageInfo::with_tags(Vec::new());
    let settings = WikitextSettings::ordinary();
    let raw = parse_internal(&info, &NullCallbacks, &settings, &tokenization);
    assert_eq!(raw.table_of_contents_depths, vec![(2usize, "Deep".to_owned())]);
}

#[test]
fn explicit_flag_suppresses_the_implicit_block() {
    let raw = UnstructuredParseResult {
        result: Ok(ParseSuccess {
            item: vec![Element::FootnoteBlock(None, false)],
            exceptions: Vec::new(),
            paragraph_safe: false,
        }),
        table_of_contents_depths: Vec::new(),
        footnotes: Vec::new(),
        code: Vec::new(),
        html: Vec::new(),
        has_footnote_block: true,
        has_toc_block: false,
        internal_links: Vec::new(),
    };
    let outcome = build_syntax_tree(raw, &String::new());
    assert_eq!(outcome.value.elements, vec![Element::FootnoteBlock(None, false)]);

    let raw2 = UnstructuredParseResult {
        result: Ok(ParseSuccess {
            item: vec![Element::Text("x".to_owned())],
            exceptions: Vec::new(),
            paragraph_safe: false,
        }),
        table_of_contents_depths: Vec::new(),
        footnotes: Vec::new(),
        code: Vec::new(),
        html: Vec::new(),
        has_footnote_block: false,
        has_toc_block: false,
        internal_links: Vec::new(),
    };
    let outcome2 = build_syntax_tree(raw2, &String::new());
    assert_eq!(
        outcome2.value.elements,
        vec![Element::Text("x".to_owned()), Element::FootnoteBlock(None, false)]
    );
}

#[test]
fn fatal_result_degenerates_to_the_source() {
    let raw = UnstructuredParseResult {
        result: Err(ParseWarning {
            kind: ParseWarningKind::MaxDepthExceeded,
            token: Token::LeftBlock,
            rule: "iftags".to_owned(),
            span_start: 0,
            span_end: 2,
        }),
        table_of_contents_depths: vec![(0, "gone".to_owned())],
        footnotes: vec![vec![Element::Text("gone".to_owned())]],
        code: Vec::new(),
        html: Vec::new(),
        has_footnote_block: true,
        has_toc_block: false,
        internal_links: Vec::new(),
    };
    let outcome = build_syntax_tree(raw, &"the source".to_owned());
    assert_eq!(outcome.value.elements, vec![Element::Text("the source".to_owned())]);
    assert_eq!(outcome.warnings.len(), 1);
    assert_eq!(outcome.warnings[0].kind, ParseWarningKind::MaxDepthExceeded);
    assert!(outcome.value.footnotes.is_empty());
    assert!(outcome.value.table_of_contents.is_empty());
}

#[test]
fn footnote_word_as_plain_text_marks_nothing() {
    // The word alone, outside a block construct, is ordinary text.
    let tokens = vec![
        tok(Token::Word, "a", 0, 1),
        tok(Token::Whitespace, " ", 1, 2),
        tok(Token::Word, "footnote", 2, 10),
        tok(Token::Whitespace, " ", 10, 11),
        tok(Token::Word, "here", 11, 15),
    ];
    let tokenization = Tokenization { text: "a footnote here".to_owned(), tokens };
    let info = PageInfo::with_tags(Vec::new());
    let settings = WikitextSettings::ordinary();
    let raw = parse_internal(&info, &NullCallbacks, &settings, &tokenization);
    assert!(raw.footnotes.is_empty());
    assert!(!raw.has_footnote_block);
}
