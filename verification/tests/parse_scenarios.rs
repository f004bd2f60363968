//! End-to-end parsing scenarios over hand-built token streams.

use ftml::callbacks::NullCallbacks;
use ftml::parsing::parse;
use ftml::settings::{PageInfo, WikitextSettings};
use ftml::token::{ExtractedToken, Token, Tokenization};
use ftml::tree::{ContainerType, Element};
use ftml::warning::ParseWarningKind;

fn tok(token: Token, slice: &str, start: usize, end: usize) -> ExtractedToken {
    ExtractedToken { token, slice: slice.to_owned(), span_start: start, span_end: end }
}

fn page(tags: &[&str]) -> PageInfo {
    PageInfo::with_tags(tags.iter().map(|t| (*t).to_owned()).collect())
}

fn text_el(s: &str) -> Element {
    Element::Text(s.to_owned())
}

fn paragraph(children: Vec<Element>) -> Element {
    Element::Container(ContainerType::Paragraph, children, Vec::new())
}

fn implicit_footnote_block() -> Element {
    Element::FootnoteBlock(None, false)
}

#[test]
fn hello_bold_world() {
    let tokens = vec![
        tok(Token::Word, "Hello", 0, 5),
        tok(Token::Whitespace, " ", 5, 6),
        tok(Token::Bold, "**", 6, 8),
        tok(Token::Word, "world", 8, 13),
        tok(Token::Bold, "**", 13, 15),
    ];
    let tokenization = Tokenization { text: "Hello **world**".to_owned(), tokens };
    let outcome = parse(&tokenization, &page(&[]), &NullCallbacks, &WikitextSettings::ordinary());
    assert_eq!(outcome.warnings.len(), 0);
    let expected = vec![
        paragraph(vec![
            text_el("Hello "),
            Element::Container(ContainerType::Bold, vec![text_el("world")], Vec::new()),
        ]),
        implicit_footnote_block(),
    ];
    assert_eq!(outcome.value.elements, expected);
}

#[test]
fn headings_build_toc() {
    let tokens = vec![
        tok(Token::Heading, "+", 0, 1),
        tok(Token::Whitespace, " ", 1, 2),
        tok(Token::Word, "Top", 2, 5),
        tok(Token::LineBreak, "\n", 5, 6),
        tok(Token::Heading, "++", 6, 8),
        tok(Token::Whitespace, " ", 8, 9),
        tok(Token::Word, "Sub", 9, 12),
        tok(Token::LineBreak, "\n", 12, 13),
        tok(Token::Heading, "+", 13, 14),
        tok(Token::Whitespace, " ", 14, 15),
        tok(Token::Word, "Top2", 15, 19),
    ];
    let tokenization = Tokenization { text: "+ Top\n++ Sub\n+ Top2".to_owned(), tokens };
    let outcome = parse(&tokenization, &page(&[]), &NullCallbacks, &WikitextSettings::ordinary());
    assert_eq!(outcome.warnings.len(), 0);
    let expected = vec![
        Element::Container(ContainerType::Heading(1), vec![text_el("Top")], Vec::new()),
        Element::Container(ContainerType::Heading(2), vec![text_el("Sub")], Vec::new()),
        Element::Container(ContainerType::Heading(1), vec![text_el("Top2")], Vec::new()),
        implicit_footnote_block(),
    ];
    assert_eq!(outcome.value.elements, expected);
    // One fragment holding the whole table of contents.
    assert_eq!(outcome.value.table_of_contents.len(), 1);
    match &outcome.value.table_of_contents[0] {
        Element::Fragment(items) => {
            assert_eq!(items.len(), 3);
            let expected_links = [
                ("#toc0", "Top", "margin-left: 0em"),
                ("#toc1", "Sub", "margin-left: 2em"),
                ("#toc2", "Top2", "margin-left: 0em"),
            ];
            for (item, (anchor, label, margin)) in items.iter().zip(expected_links.iter()) {
                match item {
                    Element::Container(ContainerType::Div, children, attrs) => {
                        assert_eq!(children.len(), 1);
                        match &children[0] {
                            Element::Link(_, url, text, _) => {
                                assert_eq!(url, anchor);
                                assert_eq!(text, label);
                            }
                            other => panic!("expected link, got {other:?}"),
                        }
                        assert_eq!(attrs.len(), 1);
                        assert_eq!(attrs[0].key, "style");
                        assert_eq!(attrs[0].value, *margin);
                    }
                    other => panic!("expected div, got {other:?}"),
                }
            }
        }
        other => panic!("expected fragment, got {other:?}"),
    }
}

fn iftags_dog_tokens() -> Tokenization {
    let tokens = vec![
        tok(Token::LeftBlock, "[[", 0, 2),
        tok(Token::Word, "iftags", 2, 8),
        tok(Token::Whitespace, " ", 8, 9),
        tok(Token::Word, "+dog", 9, 13),
        tok(Token::RightBlock, "]]", 13, 15),
        tok(Token::LineBreak, "\n", 15, 16),
        tok(Token::Word, "woof", 16, 20),
        tok(Token::LineBreak, "\n", 20, 21),
        tok(Token::LeftBlockEnd, "[[/", 21, 24),
        tok(Token::Word, "iftags", 24, 30),
        tok(Token::RightBlock, "]]", 30, 32),
    ];
    Tokenization { text: "[[iftags +dog]]\nwoof\n[[/iftags]]".to_owned(), tokens }
}

#[test]
fn iftags_matching_tag_includes_body() {
    let tokenization = iftags_dog_tokens();
    let outcome = parse(
        &tokenization,
        &page(&["dog"]),
        &NullCallbacks,
        &WikitextSettings::ordinary(),
    );
    assert_eq!(outcome.warnings.len(), 0);
    let expected = vec![paragraph(vec![text_el("woof")]), implicit_footnote_block()];
    assert_eq!(outcome.value.elements, expected);
}

#[test]
fn iftags_mismatched_tag_excludes_body() {
    let tokenization = iftags_dog_tokens();
    let outcome = parse(
        &tokenization,
        &page(&["cat"]),
        &NullCallbacks,
        &WikitextSettings::ordinary(),
    );
    assert_eq!(outcome.warnings.len(), 0);
    assert_eq!(outcome.value.elements, vec![implicit_footnote_block()]);
    assert!(outcome.value.footnotes.is_empty());
    assert_eq!(outcome.value.table_of_contents.len(), 0);
}

#[test]
fn iftags_no_conditionals_always_includes() {
    let tokenization = iftags_dog_tokens();
    let mut settings = WikitextSettings::ordinary();
    settings.no_conditionals = true;
    let outcome = parse(&tokenization, &page(&["cat"]), &NullCallbacks, &settings);
    let expected = vec![paragraph(vec![text_el("woof")]), implicit_footnote_block()];
    assert_eq!(outcome.value.elements, expected);
}

#[test]
fn iftags_discards_body_accumulators() {
    // A heading inside a discarded branch contributes no TOC entry.
    let tokens = vec![
        tok(Token::LeftBlock, "[[", 0, 2),
        tok(Token::Word, "iftags", 2, 8),
        tok(Token::Whitespace, " ", 8, 9),
        tok(Token::Word, "+dog", 9, 13),
        tok(Token::RightBlock, "]]", 13, 15),
        tok(Token::Heading, "+", 15, 16),
        tok(Token::Whitespace, " ", 16, 17),
        tok(Token::Word, "Hidden", 17, 23),
        tok(Token::LeftBlockEnd, "[[/", 23, 26),
        tok(Token::Word, "iftags", 26, 32),
        tok(Token::RightBlock, "]]", 32, 34),
    ];
    let tokenization =
        Tokenization { text: "[[iftags +dog]]+ Hidden[[/iftags]]".to_owned(), tokens };
    let outcome = parse(
        &tokenization,
        &page(&["cat"]),
        &NullCallbacks,
        &WikitextSettings::ordinary(),
    );
    assert_eq!(outcome.value.table_of_contents.len(), 0);
    let outcome_dog = parse(
        &tokenization,
        &page(&["dog"]),
        &NullCallbacks,
        &WikitextSettings::ordinary(),
    );
    assert_eq!(outcome_dog.value.table_of_contents.len(), 1);
}

#[test]
fn footnote_collected_and_referenced() {
    let tokens = vec![
        tok(Token::LeftBlock, "[[", 0, 2),
        tok(Token::Word, "footnote", 2, 10),
        tok(Token::RightBlock, "]]", 10, 12),
        tok(Token::Word, "See", 12, 15),
        tok(Token::Whitespace, " ", 15, 16),
        tok(Token::Word, "A", 16, 17),
        tok(Token::LeftBlockEnd, "[[/", 17, 20),
        tok(Token::Word, "footnote", 20, 28),
        tok(Token::RightBlock, "]]", 28, 30),
        tok(Token::Word, "Body", 30, 34),
    ];
    let tokenization =
        Tokenization { text: "[[footnote]]See A[[/footnote]]Body".to_owned(), tokens };
    let outcome = parse(&tokenization, &page(&[]), &NullCallbacks, &WikitextSettings::ordinary());
    assert_eq!(outcome.warnings.len(), 0);
    let expected = vec![
        paragraph(vec![Element::FootnoteRef(0), text_el("Body")]),
        implicit_footnote_block(),
    ];
    assert_eq!(outcome.value.elements, expected);
    assert_eq!(outcome.value.footnotes, vec![vec![text_el("See A")]]);
}

#[test]
fn malformed_iftags_degrades_to_text() {
    let tokens = vec![
        tok(Token::LeftBlock, "[[", 0, 2),
        tok(Token::Word, "iftags", 2, 8),
        tok(Token::Whitespace, " ", 8, 9),
        tok(Token::Word, "+dog", 9, 13),
        tok(Token::LineBreak, "\n", 13, 14),
        tok(Token::Word, "body", 14, 18),
    ];
    let tokenization = Tokenization { text: "[[iftags +dog\nbody".to_owned(), tokens };
    let outcome = parse(
        &tokenization,
        &page(&["dog"]),
        &NullCallbacks,
        &WikitextSettings::ordinary(),
    );
    assert_eq!(outcome.warnings.len(), 1);
    assert_eq!(outcome.warnings[0].kind, ParseWarningKind::BlockMissingCloseBrackets);
    let expected = vec![
        paragraph(vec![text_el("[[iftags +dog"), text_el("body")]),
        implicit_footnote_block(),
    ];
    assert_eq!(outcome.value.elements, expected);
}

#[test]
fn explicit_footnote_block_is_not_doubled() {
    let tokens = vec![
        tok(Token::LeftBlock, "[[", 0, 2),
        tok(Token::Word, "footnoteblock", 2, 15),
        tok(Token::RightBlock, "]]", 15, 17),
    ];
    let tokenization = Tokenization { text: "[[footnoteblock]]".to_owned(), tokens };
    let outcome = parse(&tokenization, &page(&[]), &NullCallbacks, &WikitextSettings::ordinary());
    let blocks = outcome
        .value
        .elements
        .iter()
        .filter(|e| matches!(e, Element::FootnoteBlock(..)))
        .count();
    assert_eq!(blocks, 1);
}

#[test]
fn second_footnote_block_places_nothing() {
    let tokens = vec![
        tok(Token::LeftBlock, "[[", 0, 2),
        tok(Token::Word, "footnoteblock", 2, 15),
        tok(Token::RightBlock, "]]", 15, 17),
        tok(Token::LeftBlock, "[[", 17, 19),
        tok(Token::Word, "footnoteblock", 19, 32),
        tok(Token::RightBlock, "]]", 32, 34),
    ];
    let tokenization = Tokenization { text: "[[footnoteblock]][[footnoteblock]]".to_owned(), tokens };
    let outcome = parse(&tokenization, &page(&[]), &NullCallbacks, &WikitextSettings::ordinary());
    let blocks = outcome
        .value
        .elements
        .iter()
        .filter(|e| matches!(e, Element::FootnoteBlock(..)))
        .count();
    assert_eq!(blocks, 1);
}

#[test]
fn toc_block_marks_and_places_marker() {
    let tokens = vec![
        tok(Token::LeftBlock, "[[", 0, 2),
        tok(Token::Word, "toc", 2, 5),
        tok(Token::RightBlock, "]]", 5, 7),
    ];
    let tokenization = Tokenization { text: "[[toc]]".to_owned(), tokens };
    let outcome = parse(&tokenization, &page(&[]), &NullCallbacks, &WikitextSettings::ordinary());
    assert!(outcome.value.has_toc_block);
    assert!(outcome
        .value
        .elements
        .iter()
        .any(|e| matches!(e, Element::TableOfContents)));
}

#[test]
fn missing_block_name_warns_and_degrades() {
    let tokens = vec![
        tok(Token::LeftBlock, "[[", 0, 2),
        tok(Token::Whitespace, " ", 2, 3),
        tok(Token::RightBlock, "]]", 3, 5),
    ];
    let tokenization = Tokenization { text: "[[ ]]".to_owned(), tokens };
    let outcome = parse(&tokenization, &page(&[]), &NullCallbacks, &WikitextSettings::ordinary());
    assert!(outcome
        .warnings
        .iter()
        .any(|w| w.kind == ParseWarningKind::BlockMissingName));
}

#[test]
fn mismatched_end_tag_warns() {
    let tokens = vec![
        tok(Token::LeftBlock, "[[", 0, 2),
        tok(Token::Word, "footnote", 2, 10),
        tok(Token::RightBlock, "]]", 10, 12),
        tok(Token::Word, "x", 12, 13),
        tok(Token::LeftBlockEnd, "[[/", 13, 16),
        tok(Token::Word, "bar", 16, 19),
        tok(Token::RightBlock, "]]", 19, 21),
    ];
    let tokenization = Tokenization { text: "[[footnote]]x[[/bar]]".to_owned(), tokens };
    let outcome = parse(&tokenization, &page(&[]), &NullCallbacks, &WikitextSettings::ordinary());
    assert!(outcome
        .warnings
        .iter()
        .any(|w| w.kind == ParseWarningKind::BlockExpectedEnd));
    assert!(outcome.value.footnotes.is_empty());
}

#[test]
fn iftags_without_arguments_warns() {
    let tokens = vec![
        tok(Token::LeftBlock, "[[", 0, 2),
        tok(Token::Word, "iftags", 2, 8),
        tok(Token::RightBlock, "]]", 8, 10),
    ];
    let tokenization = Tokenization { text: "[[iftags]]".to_owned(), tokens };
    let outcome = parse(&tokenization, &page(&[]), &NullCallbacks, &WikitextSettings::ordinary());
    assert!(outcome
        .warnings
        .iter()
        .any(|w| w.kind == ParseWarningKind::BlockMissingArguments));
}

#[test]
fn unclosed_body_warns_end_of_input() {
    let tokens = vec![
        tok(Token::LeftBlock, "[[", 0, 2),
        tok(Token::Word, "iftags", 2, 8),
        tok(Token::Whitespace, " ", 8, 9),
        tok(Token::Word, "+dog", 9, 13),
        tok(Token::RightBlock, "]]", 13, 15),
        tok(Token::Word, "body", 15, 19),
    ];
    let tokenization = Tokenization { text: "[[iftags +dog]]body".to_owned(), tokens };
    let outcome = parse(
        &tokenization,
        &page(&["dog"]),
        &NullCallbacks,
        &WikitextSettings::ordinary(),
    );
    assert!(outcome
        .warnings
        .iter()
        .any(|w| w.kind == ParseWarningKind::EndOfInput));
}

#[test]
fn deep_block_nesting_aborts_with_depth_warning() {
    let mut tokens = Vec::new();
    let mut text = String::new();
    let mut pos = 0usize;
    for _ in 0..101 {
        tokens.push(tok(Token::LeftBlock, "[[", pos, pos + 2));
        tokens.push(tok(Token::Word, "iftags", pos + 2, pos + 8));
        tokens.push(tok(Token::Whitespace, " ", pos + 8, pos + 9));
        tokens.push(tok(Token::Word, "+a", pos + 9, pos + 11));
        tokens.push(tok(Token::RightBlock, "]]", pos + 11, pos + 13));
        text.push_str("[[iftags +a]]");
        pos += 13;
    }
    let tokenization = Tokenization { text, tokens };
    let outcome = parse(&tokenization, &page(&["a"]), &NullCallbacks, &WikitextSettings::ordinary());
    assert_eq!(outcome.warnings.len(), 1);
    assert_eq!(outcome.warnings[0].kind, ParseWarningKind::MaxDepthExceeded);
    // The degenerate tree carries the input back as one text element.
    assert_eq!(outcome.value.elements.len(), 1);
    match &outcome.value.elements[0] {
        Element::Text(t) => assert_eq!(t.len(), 13 * 101),
        other => panic!("expected text, got {other:?}"),
    }
}

#[test]
fn warning_spans_lie_within_input() {
    let tokens = vec![
        tok(Token::LeftBlock, "[[", 0, 2),
        tok(Token::Word, "iftags", 2, 8),
        tok(Token::Whitespace, " ", 8, 9),
        tok(Token::Word, "+dog", 9, 13),
        tok(Token::LineBreak, "\n", 13, 14),
        tok(Token::Word, "body", 14, 18),
    ];
    let text = "[[iftags +dog\nbody".to_owned();
    let len = text.chars().count();
    let tokenization = Tokenization { text, tokens };
    let outcome = parse(&tokenization, &page(&[]), &NullCallbacks, &WikitextSettings::ordinary());
    for w in &outcome.warnings {
        assert!(w.span_start <= w.span_end);
        assert!(w.span_end <= len);
    }
}

#[test]
fn heading_title_keeps_every_word() {
    let tokens = vec![
        tok(Token::Heading, "+", 0, 1),
        tok(Token::Whitespace, " ", 1, 2),
        tok(Token::Word, "Alpha", 2, 7),
        tok(Token::Whitespace, " ", 7, 8),
        tok(Token::Word, "Beta", 8, 12),
    ];
    let tokenization = Tokenization { text: "+ Alpha Beta".to_owned(), tokens };
    let outcome = parse(&tokenization, &page(&[]), &NullCallbacks, &WikitextSettings::ordinary());
    match &outcome.value.table_of_contents[0] {
        Element::Fragment(items) => match &items[0] {
            Element::Container(_, children, _) => match &children[0] {
                Element::Link(_, _, label, _) => assert_eq!(label, "Alpha Beta"),
                other => panic!("expected link, got {other:?}"),
            },
            other => panic!("expected div, got {other:?}"),
        },
        other => panic!("expected fragment, got {other:?}"),
    }
}

#[test]
fn disabled_block_name_falls_through_to_text() {
    let tokenization = iftags_dog_tokens();
    let mut settings = WikitextSettings::ordinary();
    settings.disable_block_names = vec!["iftags".to_owned()];
    let outcome = parse(&tokenization, &page(&["dog"]), &NullCallbacks, &settings);
    assert!(outcome
        .warnings
        .iter()
        .any(|w| w.kind == ParseWarningKind::RuleFailed));
    match &outcome.value.elements[0] {
        Element::Container(ContainerType::Paragraph, children, _) => match &children[0] {
            Element::Text(t) => assert!(t.starts_with("[[")),
            other => panic!("expected text, got {other:?}"),
        },
        other => panic!("expected paragraph, got {other:?}"),
    }
}

#[test]
fn enable_list_excludes_unnamed_blocks() {
    let tokenization = iftags_dog_tokens();
    let mut settings = WikitextSettings::ordinary();
    settings.enable_block_names = vec!["footnote".to_owned()];
    let outcome = parse(&tokenization, &page(&["dog"]), &NullCallbacks, &settings);
    // The iftags block is not in the enabled set, so it reads as text.
    assert!(outcome
        .warnings
        .iter()
        .any(|w| w.kind == ParseWarningKind::RuleFailed));
}
