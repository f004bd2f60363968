//! Tag conditions, and the parser's transaction discipline.

use ftml::condition::{ElementCondition, ElementConditionType};
use ftml::parser::{Parser, TransactionFlags};
use ftml::settings::{PageInfo, PageRef, WikitextSettings};
use ftml::token::Tokenization;
use ftml::tree::Element;

fn strings(words: &[&str]) -> Vec<String> {
    words.iter().map(|w| (*w).to_owned()).collect()
}

#[test]
fn condition_atoms_parse_by_leading_sign() {
    let conds = ElementCondition::parse(&strings(&["+dog", "-cat", "bird"]));
    assert_eq!(conds.len(), 3);
    assert_eq!(conds[0].ctype, ElementConditionType::Required);
    assert_eq!(conds[0].tag, "dog");
    assert_eq!(conds[1].ctype, ElementConditionType::Prohibited);
    assert_eq!(conds[1].tag, "cat");
    assert_eq!(conds[2].ctype, ElementConditionType::Present);
    assert_eq!(conds[2].tag, "bird");
}

#[test]
fn empty_condition_list_matches_unconditionally() {
    let conds: Vec<ElementCondition> = Vec::new();
    assert!(ElementCondition::check(&conds, &strings(&[])));
    assert!(ElementCondition::check(&conds, &strings(&["anything"])));
}

#[test]
fn required_and_prohibited_tags_decide_the_match() {
    let conds = ElementCondition::parse(&strings(&["+dog", "-cat", "bird"]));
    assert!(ElementCondition::check(&conds, &strings(&["dog", "bird"])));
    assert!(!ElementCondition::check(&conds, &strings(&["dog"])));
    assert!(!ElementCondition::check(&conds, &strings(&["dog", "bird", "cat"])));
    assert!(!ElementCondition::check(&conds, &strings(&["bird"])));
}

fn fresh_parser<'t>(
    tokenization: &'t Tokenization,
    info: &'t PageInfo,
    settings: &'t WikitextSettings,
) -> Parser<'t> {
    Parser::new(tokenization, info, settings)
}

#[test]
fn rollback_restores_the_pre_transaction_state() {
    let tokenization = Tokenization { text: String::new(), tokens: Vec::new() };
    let info = PageInfo::with_tags(Vec::new());
    let settings = WikitextSettings::ordinary();
    let mut parser = fresh_parser(&tokenization, &info, &settings);
    parser.push_toc(0, "before".to_owned());
    parser.push_footnote(vec![Element::Text("kept".to_owned())]);

    parser.start_transaction(TransactionFlags::all());
    parser.push_toc(1, "inside".to_owned());
    parser.push_footnote(vec![Element::Text("dropped".to_owned())]);
    parser.push_code("lang".to_owned(), "body".to_owned());
    parser.push_html("<b>".to_owned());
    parser.push_internal_link(PageRef { site: None, page: "other".to_owned() });
    parser.mark_has_footnote_block();
    parser.mark_has_toc_block();
    parser.rollback();

    assert_eq!(parser.table_of_contents.len(), 1);
    assert_eq!(parser.table_of_contents[0].1, "before");
    assert_eq!(parser.footnotes.len(), 1);
    assert_eq!(parser.code.len(), 0);
    assert_eq!(parser.html.len(), 0);
    assert_eq!(parser.internal_links.len(), 0);
    assert!(!parser.has_footnote_block);
    assert!(!parser.has_toc_block);
    assert_eq!(parser.index, 0);
}

#[test]
fn commit_keeps_entries_in_document_order() {
    let tokenization = Tokenization { text: String::new(), tokens: Vec::new() };
    let info = PageInfo::with_tags(Vec::new());
    let settings = WikitextSettings::ordinary();
    let mut parser = fresh_parser(&tokenization, &info, &settings);
    parser.push_toc(0, "first".to_owned());
    parser.start_transaction(TransactionFlags::all());
    parser.push_toc(1, "second".to_owned());
    parser.commit();
    parser.push_toc(0, "third".to_owned());
    let toc = parser.remove_table_of_contents();
    let titles: Vec<&str> = toc.iter().map(|(_, t)| t.as_str()).collect();
    assert_eq!(titles, vec!["first", "second", "third"]);
}

#[test]
fn nested_transactions_roll_back_independently() {
    let tokenization = Tokenization { text: String::new(), tokens: Vec::new() };
    let info = PageInfo::with_tags(Vec::new());
    let settings = WikitextSettings::ordinary();
    let mut parser = fresh_parser(&tokenization, &info, &settings);
    parser.start_transaction(TransactionFlags::all());
    parser.push_toc(0, "outer".to_owned());
    parser.start_transaction(TransactionFlags::all());
    parser.push_toc(1, "inner".to_owned());
    parser.rollback();
    parser.commit();
    let toc = parser.remove_table_of_contents();
    assert_eq!(toc.len(), 1);
    assert_eq!(toc[0].1, "outer");
}

#[test]
fn accumulator_flags_leave_the_cursor_alone() {
    let tokenization = Tokenization { text: String::new(), tokens: Vec::new() };
    let info = PageInfo::with_tags(Vec::new());
    let settings = WikitextSettings::ordinary();
    let mut parser = fresh_parser(&tokenization, &info, &settings);
    let flags = TransactionFlags::accumulators();
    assert!(!flags.cursor);
    parser.start_transaction(flags);
    parser.push_html("kept-out".to_owned());
    parser.rollback();
    assert_eq!(parser.html.len(), 0);
}
