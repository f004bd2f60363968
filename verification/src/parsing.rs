//! The top-level entry points: run the gatherer over the tokens, then
//! post-process the raw results into the final syntax tree.

use vstd::prelude::*;
use crate::callbacks::PageCallbacks;
use crate::depth::{payload_pairs, process_depths};
use crate::gather::{all_text_kinds, concat_slices, gather_paragraphs, is_text_element,
    is_text_paragraph, malformed_iftags_at, CloseCondition};
use crate::parser::{no_footnote_constructs, Parser};
use crate::settings::{PageInfo, PageRef, WikitextSettings};
use crate::toc::{build_toc_list_element, is_toc_entry, Incrementer};
use crate::token::Tokenization;
use crate::tree::{count_footnote_blocks, lemma_count_fb_one, lemma_count_footnote_blocks_append,
    Element, SyntaxTree};
use crate::warning::{exceptions_wf, warnings_wf, ParseException, ParseResult, ParseSuccess,
    ParseWarning, ParseWarningKind};

verus! {

/// The returned result from parsing, prior to conversion: the raw element
/// list and every accumulator as the parser left them.
pub struct UnstructuredParseResult {
    pub result: ParseResult<Vec<Element>>,
    /// The depths list for table-of-contents entries, each a zero-indexed
    /// depth and a title.
    pub table_of_contents_depths: Vec<(usize, String)>,
    /// The footnotes; each entry is the contents of one footnote.
    pub footnotes: Vec<Vec<Element>>,
    /// The code blocks, each a language and a body.
    pub code: Vec<(String, String)>,
    /// The raw HTML bodies.
    pub html: Vec<String>,
    /// Whether a footnote block was placed during parsing.
    pub has_footnote_block: bool,
    /// Whether a table-of-contents block was placed during parsing.
    pub has_toc_block: bool,
    /// The references to other pages.
    pub internal_links: Vec<PageRef>,
}

/// No side effects were gathered: every accumulator empty, no block
/// marked.
pub open spec fn accumulators_empty(r: &UnstructuredParseResult) -> bool {
    r.table_of_contents_depths@.len() == 0 && r.footnotes@.len() == 0 && r.code@.len() == 0
        && r.html@.len() == 0 && r.internal_links@.len() == 0 && !r.has_footnote_block
        && !r.has_toc_block
}

/// What parsing hands back: the finished value and the warnings met on
/// the way.
pub struct ParseOutcome<T> {
    pub value: T,
    pub warnings: Vec<ParseWarning>,
}

/// The warnings among the exceptions, the informational manual-break
/// entries dropped.
pub open spec fn extracted_warnings(exceptions: Seq<ParseException>) -> Seq<ParseWarning>
    decreases exceptions.len(),
{
    if exceptions.len() == 0 {
        Seq::empty()
    } else {
        let rest = extracted_warnings(exceptions.drop_last());
        match exceptions.last() {
            ParseException::Warning(w) => {
                if w.kind == ParseWarningKind::ManualBreak {
                    rest
                } else {
                    rest.push(w)
                }
            },
        }
    }
}

/// Exceptions with spans in range extract to warnings with spans in range.
pub proof fn lemma_extracted_wf(exceptions: Seq<ParseException>, limit: nat)
    requires
        exceptions_wf(exceptions, limit),
    ensures
        warnings_wf(extracted_warnings(exceptions), limit),
    decreases exceptions.len(),
{
    if exceptions.len() > 0 {
        assert(exceptions.last().span_wf(limit));
        assert(exceptions_wf(exceptions.drop_last(), limit));
        lemma_extracted_wf(exceptions.drop_last(), limit);
    }
}

/// Extraction keeps a leading genuine warning in first place.
pub proof fn lemma_extracted_first(exceptions: Seq<ParseException>)
    requires
        exceptions.len() > 0,
        exceptions[0] matches ParseException::Warning(w) && w.kind
            != ParseWarningKind::ManualBreak,
    ensures
        extracted_warnings(exceptions).len() >= 1,
        exceptions[0] matches ParseException::Warning(w) && extracted_warnings(exceptions)[0]
            == w,
    decreases exceptions.len(),
{
    if exceptions.len() > 1 {
        assert(exceptions.drop_last()[0] == exceptions[0]);
        lemma_extracted_first(exceptions.drop_last());
        let rest = extracted_warnings(exceptions.drop_last());
        match exceptions.last() {
            ParseException::Warning(wl) => {
                if wl.kind == ParseWarningKind::ManualBreak {
                    assert(extracted_warnings(exceptions) == rest);
                } else {
                    assert(extracted_warnings(exceptions) == rest.push(wl));
                    assert(rest.push(wl)[0] == rest[0]);
                }
            },
        }
    } else {
        assert(exceptions.drop_last() =~= Seq::<ParseException>::empty());
        assert(extracted_warnings(exceptions.drop_last()) =~= Seq::<ParseWarning>::empty());
    }
}

/// Keep the genuine warnings among the gathered exceptions, dropping the
/// informational manual-break signals.
pub fn extract_exceptions(exceptions: Vec<ParseException>) -> (r: Vec<ParseWarning>)
    ensures
        r@ == extracted_warnings(exceptions@),
{
    let mut warnings: Vec<ParseWarning> = Vec::new();
    let mut i: usize = 0;
    proof {
        assert(exceptions@.subrange(0, 0) =~= Seq::<ParseException>::empty());
    }
    while i < exceptions.len()
        invariant
            i <= exceptions@.len(),
            warnings@ == extracted_warnings(exceptions@.subrange(0, i as int)),
        decreases exceptions@.len() - i,
    {
        proof {
            assert(exceptions@.subrange(0, i + 1).drop_last() =~= exceptions@.subrange(
                0,
                i as int,
            ));
            assert(exceptions@.subrange(0, i + 1).last() == exceptions@[i as int]);
        }
        match &exceptions[i] {
            ParseException::Warning(w) => {
                if !matches!(w.kind, ParseWarningKind::ManualBreak) {
                    warnings.push(copy_warning(w));
                }
            },
        }
        i = i + 1;
    }
    proof {
        assert(exceptions@.subrange(0, exceptions@.len() as int) =~= exceptions@);
    }
    warnings
}

/// An equal warning, field for field.
fn copy_warning(w: &ParseWarning) -> (r: ParseWarning)
    ensures
        r == *w,
{
    ParseWarning {
        kind: w.kind,
        token: w.token,
        rule: w.rule.clone(),
        span_start: w.span_start,
        span_end: w.span_end,
    }
}

/// Equal warnings, element for element.
fn copy_warnings(warnings: &Vec<ParseWarning>) -> (r: Vec<ParseWarning>)
    ensures
        r@ == warnings@,
{
    let mut out: Vec<ParseWarning> = Vec::new();
    let mut i: usize = 0;
    while i < warnings.len()
        invariant
            i <= warnings@.len(),
            out@ == warnings@.subrange(0, i as int),
        decreases warnings@.len() - i,
    {
        out.push(copy_warning(&warnings[i]));
        proof {
            assert(out@ =~= warnings@.subrange(0, i + 1));
        }
        i = i + 1;
    }
    proof {
        assert(warnings@.subrange(0, warnings@.len() as int) =~= warnings@);
    }
    out
}

/// Run the parser over the tokens and return the raw internal results
/// prior to conversion. A successful result carries exactly one footnote
/// block among its elements when one was placed and none otherwise; an
/// input with no word that could begin a footnote construct leaves the
/// footnote accumulator empty and the flag unset.
pub fn parse_internal<C: PageCallbacks>(
    page_info: &PageInfo,
    page_callbacks: &C,
    settings: &WikitextSettings,
    tokenization: &Tokenization,
) -> (r: UnstructuredParseResult)
    requires
        tokenization.wf(),
    ensures
        match r.result {
            Ok(s) => {
                &&& exceptions_wf(s.exceptions@, tokenization.text@.len())
                &&& count_footnote_blocks(s.item@) == if r.has_footnote_block {
                    1int
                } else {
                    0int
                }
            },
            Err(w) => w.span_wf(tokenization.text@.len()),
        },
        no_footnote_constructs(tokenization.tokens@) ==> r.footnotes@.len() == 0
            && !r.has_footnote_block,
        tokenization.tokens@.len() == 0 ==> accumulators_empty(&r) && match r.result {
            Ok(s) => s.item@.len() == 0 && s.exceptions@.len() == 0,
            Err(w) => false,
        },
        (tokenization.tokens@.len() > 0 && all_text_kinds(
            tokenization.tokens@,
            0,
            tokenization.tokens@.len() as int,
        )) ==> accumulators_empty(&r) && match r.result {
            Ok(s) => s.item@.len() == 1 && is_text_paragraph(
                s.item@[0],
                concat_slices(tokenization.tokens@, 0, tokenization.tokens@.len() as int),
            ) && s.exceptions@.len() == 0,
            Err(w) => false,
        },
        malformed_iftags_at(tokenization.tokens@, 0, *settings) ==> match r.result {
            Ok(s) => s.exceptions@.len() >= 1 && (match s.exceptions@[0] {
                ParseException::Warning(w) => w.kind
                    == ParseWarningKind::BlockMissingCloseBrackets,
            }),
            Err(w) => w.kind == ParseWarningKind::MaxDepthExceeded,
        },
{
    let mut parser = Parser::new(tokenization, page_info, settings);
    let ghost p0 = parser;
    let result = gather_paragraphs(&mut parser, "page", CloseCondition::UntilEnd);
    let table_of_contents_depths = parser.remove_table_of_contents();
    let footnotes = parser.remove_footnotes();
    let code = parser.remove_code();
    let html = parser.remove_html();
    let internal_links = parser.remove_internal_links();
    let has_footnote_block = parser.has_footnote_block;
    let has_toc_block = parser.has_toc_block;
    UnstructuredParseResult {
        result,
        table_of_contents_depths,
        footnotes,
        code,
        html,
        has_footnote_block,
        has_toc_block,
        internal_links,
    }
}

/// One fragment holding, in depth-first order, one table-of-contents
/// entry per `(title, depth)` pair, with anchor indices counting up from
/// zero and margins two ems per depth level.
pub open spec fn is_toc_fragment(e: Element, entries: Seq<(Seq<char>, nat)>) -> bool {
    match e {
        Element::Fragment(items) => items@.len() == entries.len() && forall|k: int|
            0 <= k < items@.len() ==> is_toc_entry(
                #[trigger] items@[k],
                entries[k].0,
                entries[k].1,
                k as nat,
            ),
        _ => false,
    }
}

/// Convert the raw internal results into the final tree: extract the
/// warnings, build the table-of-contents elements, and append the
/// implicit footnote block when none was explicit. On a fatal result the
/// tree degenerates to the source as one text element with the single
/// fatal warning and no footnotes, table of contents, or links.
pub fn build_syntax_tree(raw: UnstructuredParseResult, source: &String) -> (outcome: ParseOutcome<
    SyntaxTree,
>)
    requires
        match raw.result {
            Ok(s) => exceptions_wf(s.exceptions@, source@.len()),
            Err(w) => w.span_wf(source@.len()),
        },
    ensures
        outcome.warnings@ == outcome.value.warnings@,
        warnings_wf(outcome.value.warnings@, source@.len()),
        outcome.value.has_toc_block == raw.has_toc_block,
        outcome.value.code == raw.code,
        outcome.value.html == raw.html,
        match raw.result {
            Ok(s) => {
                &&& outcome.value.warnings@ == extracted_warnings(s.exceptions@)
                &&& !raw.has_footnote_block ==> outcome.value.elements@ == s.item@.push(
                    Element::FootnoteBlock(Option::None, false),
                )
                &&& raw.has_footnote_block ==> outcome.value.elements@ == s.item@
                &&& outcome.value.footnotes == raw.footnotes
                &&& outcome.value.internal_links == raw.internal_links
                &&& raw.table_of_contents_depths@.len() == 0
                    ==> outcome.value.table_of_contents@.len() == 0
                &&& raw.table_of_contents_depths@.len() > 0
                    ==> outcome.value.table_of_contents@.len() == 1 && is_toc_fragment(
                    outcome.value.table_of_contents@[0],
                    payload_pairs(raw.table_of_contents_depths@),
                )
            },
            Err(w) => {
                &&& outcome.value.warnings@ == seq![w]
                &&& outcome.value.elements@.len() == 1
                &&& is_text_element(outcome.value.elements@[0], source@)
                &&& outcome.value.footnotes@.len() == 0
                &&& outcome.value.table_of_contents@.len() == 0
                &&& outcome.value.internal_links@.len() == 0
            },
        },
{
    // For producing table-of-contents indexes.
    let mut incrementer = Incrementer(0);
    match raw.result {
        Ok(success) => {
            let ParseSuccess { item: elements, exceptions, .. } = success;
            let mut elements = elements;
            let warnings = extract_exceptions(exceptions);
            proof {
                lemma_extracted_wf(exceptions@, source@.len());
            }
            // Convert the table-of-contents depth list into elements.
            let root = process_depths(&raw.table_of_contents_depths);
            let mut table_of_contents: Vec<Element> = Vec::new();
            if raw.table_of_contents_depths.len() > 0 {
                proof {
                    assert(crate::depth::flatten_items_depth(root@, 0).len() == payload_pairs(
                        raw.table_of_contents_depths@,
                    ).len());
                    assert(raw.table_of_contents_depths@.len()
                        <= raw.table_of_contents_depths.len());
                    // The nesting is bounded by the largest input depth,
                    // itself a machine word.
                    crate::depth::lemma_spec_max_depth_bound(raw.table_of_contents_depths@);
                    assert(crate::depth::height_items(root@) <= usize::MAX + 1);
                }
                let toc_root = build_toc_list_element(&mut incrementer, root);
                proof {
                    assert(is_toc_fragment(
                        toc_root,
                        payload_pairs(raw.table_of_contents_depths@),
                    ));
                }
                table_of_contents.push(toc_root);
            }
            // Add a footnote block at the end if there is none already.
            let ghost e0 = elements@;
            if !raw.has_footnote_block {
                elements.push(Element::FootnoteBlock(Option::None, false));
                proof {
                    assert(elements@ =~= e0.push(Element::FootnoteBlock(Option::None, false)));
                }
            }
            let tree = SyntaxTree::from_element_result(
                elements,
                copy_warnings(&warnings),
                table_of_contents,
                raw.has_toc_block,
                raw.footnotes,
                raw.code,
                raw.html,
                raw.internal_links,
            );
            ParseOutcome { value: tree, warnings }
        },
        Err(warning) => {
            // Only reachable when parsing fails wholesale: return the
            // input source as the output, with the single fatal warning.
            let wikitext = source.clone();
            let mut elements: Vec<Element> = Vec::new();
            elements.push(Element::Text(wikitext));
            let mut warnings: Vec<ParseWarning> = Vec::new();
            warnings.push(copy_warning(&warning));
            let table_of_contents: Vec<Element> = Vec::new();
            let empty_footnotes: Vec<Vec<Element>> = Vec::new();
            let empty_links: Vec<PageRef> = Vec::new();
            let tree = SyntaxTree::from_element_result(
                elements,
                copy_warnings(&warnings),
                table_of_contents,
                raw.has_toc_block,
                empty_footnotes,
                raw.code,
                raw.html,
                empty_links,
            );
            ParseOutcome { value: tree, warnings }
        },
    }
}

/// Parse through the given tokens and produce the final syntax tree.
///
/// Every warning's span lies within the source's range. The tree holds at
/// most one footnote block, and exactly one except in the degenerate
/// fatal shape; the implicit block is appended by `build_syntax_tree`. An
/// input with no word that could begin a footnote construct yields no
/// footnotes at all; an input of only text-like tokens yields exactly one
/// paragraph holding their concatenated text, the implicit footnote
/// block, and nothing else.
pub fn parse<C: PageCallbacks>(
    tokenization: &Tokenization,
    page_info: &PageInfo,
    page_callbacks: &C,
    settings: &WikitextSettings,
) -> (outcome: ParseOutcome<SyntaxTree>)
    requires
        tokenization.wf(),
    ensures
        warnings_wf(outcome.value.warnings@, tokenization.text@.len()),
        outcome.warnings@ == outcome.value.warnings@,
        count_footnote_blocks(outcome.value.elements@) <= 1,
        outcome.value.footnotes@.len() > 0 ==> count_footnote_blocks(outcome.value.elements@)
            == 1,
        count_footnote_blocks(outcome.value.elements@) == 1 || (
        outcome.value.elements@.len() == 1 && outcome.value.warnings@.len() == 1
            && outcome.value.footnotes@.len() == 0),
        no_footnote_constructs(tokenization.tokens@) ==> outcome.value.footnotes@.len() == 0,
        outcome.value.table_of_contents@.len() <= 1,
        tokenization.tokens@.len() == 0 ==> outcome.value.elements@ == seq![
            Element::FootnoteBlock(Option::None, false),
        ] && outcome.value.warnings@.len() == 0 && outcome.value.table_of_contents@.len() == 0,
        // A malformed iftags block at the front degrades, never aborts
        // silently: its close-brackets warning is the first surfaced,
        // unless a depth overrun elsewhere makes the whole parse fatal.
        malformed_iftags_at(tokenization.tokens@, 0, *settings)
            ==> outcome.value.warnings@.len() >= 1 && (outcome.value.warnings@[0].kind
            == ParseWarningKind::BlockMissingCloseBrackets || outcome.value.warnings@[0].kind
            == ParseWarningKind::MaxDepthExceeded),
        (tokenization.tokens@.len() > 0 && all_text_kinds(
            tokenization.tokens@,
            0,
            tokenization.tokens@.len() as int,
        )) ==> {
            &&& outcome.value.elements@.len() == 2
            &&& is_text_paragraph(
                outcome.value.elements@[0],
                concat_slices(tokenization.tokens@, 0, tokenization.tokens@.len() as int),
            )
            &&& outcome.value.elements@[1] == Element::FootnoteBlock(Option::None, false)
            &&& outcome.value.warnings@.len() == 0
            &&& outcome.value.table_of_contents@.len() == 0
            &&& outcome.value.footnotes@.len() == 0
        },
{
    let raw = parse_internal(page_info, page_callbacks, settings, tokenization);
    let ghost graw = raw;
    let outcome = build_syntax_tree(raw, &tokenization.text);
    proof {
        if graw.result is Ok {
            let s = graw.result->Ok_0;
            lemma_count_footnote_blocks_append(
                s.item@,
                seq![Element::FootnoteBlock(Option::None, false)],
            );
            lemma_count_fb_one(Element::FootnoteBlock(Option::None, false));
            assert(s.item@.push(Element::FootnoteBlock(Option::None, false)) =~= s.item@ + seq![
                Element::FootnoteBlock(Option::None, false),
            ]);
            if s.exceptions@.len() == 0 {
                assert(extracted_warnings(s.exceptions@) =~= Seq::<ParseWarning>::empty());
            }
            if malformed_iftags_at(tokenization.tokens@, 0, *settings) {
                lemma_extracted_first(s.exceptions@);
            }
            if s.item@.len() == 0 && !graw.has_footnote_block {
                assert(s.item@.push(Element::FootnoteBlock(Option::None, false)) =~= seq![
                    Element::FootnoteBlock(Option::None, false),
                ]);
            }
        } else {
            assert(outcome.value.elements@.drop_last() =~= Seq::<Element>::empty());
            assert(count_footnote_blocks(Seq::<Element>::empty()) == 0);
            assert(outcome.value.elements@.last() == outcome.value.elements@[0]);
        }
    }
    outcome
}

} // verus!
