//! The element-consumption engine: rule dispatch, the inline rules, the
//! block-rule protocol, and the paragraph gatherer.
//!
//! Dispatch looks at the current token and tries the matching rule inside
//! a transaction guarding everything, the cursor included. A failed rule
//! is rolled back without a trace, its warning kept as a non-fatal
//! exception, and the fallback text rule consumes the token instead; so
//! every successful consumption advances the cursor, which bounds the
//! whole parse by the token count. Only a depth overrun is fatal.

use vstd::prelude::*;
use vstd::string::{StrSliceExecFns, StringExecFns};
use crate::parser::{acc_extends, no_footnote_constructs, rule_frame, lemma_acc_extends_refl,
    lemma_acc_extends_trans, lemma_rule_frame_trans, lemma_rollback_restores, Parser,
    TransactionFlags};
use crate::token::Token;
use crate::tree::{count_footnote_blocks, lemma_count_fb_one, lemma_count_footnote_blocks_append,
    ContainerType, Element, Elements};
use crate::warning::{exceptions_wf, ParseException, ParseResult, ParseSuccess, ParseWarning,
    ParseWarningKind};

verus! {

/// How many tokens are still in front of the cursor.
pub open spec fn remaining<'t>(p: Parser<'t>) -> int {
    p.tokens@.len() - p.index
}

/// One when a footnote block has been placed, else zero.
pub open spec fn fb_flag<'t>(p: Parser<'t>) -> int {
    if p.has_footnote_block {
        1int
    } else {
        0int
    }
}

/// What every successful rule outcome guarantees: its exceptions' spans
/// lie within the source, the footnote blocks among its elements match
/// exactly the move of the has-footnote-block flag, and paragraph-safe
/// output holds no footnote block at all.
pub open spec fn rule_ok<'t>(
    pre: Parser<'t>,
    post: Parser<'t>,
    s: ParseSuccess<Elements>,
) -> bool {
    exceptions_wf(s.exceptions@, post.text_len as nat) && count_footnote_blocks(s.item@) == fb_flag(
        post,
    ) - fb_flag(pre) && (s.paragraph_safe ==> count_footnote_blocks(s.item@) == 0)
}

/// The accumulators hold, as sequences, exactly the same contents.
pub open spec fn acc_view_eq<'t>(pre: Parser<'t>, post: Parser<'t>) -> bool {
    post.table_of_contents@ == pre.table_of_contents@ && post.footnotes@ == pre.footnotes@
        && post.code@ == pre.code@ && post.html@ == pre.html@ && post.internal_links@
        == pre.internal_links@ && post.has_footnote_block == pre.has_footnote_block
        && post.has_toc_block == pre.has_toc_block
}

/// The word atoms of a block head read from the given position: skip
/// whitespace, collect words, stop at `]]`; anything else, the end of
/// input included, means the head is not closed.
pub open spec fn head_words_spec(tokens: Seq<crate::token::ExtractedToken>, i: int) -> Option<
    Seq<Seq<char>>,
>
    decreases tokens.len() - i,
{
    if i < 0 || i >= tokens.len() {
        Option::None
    } else {
        match tokens[i].token {
            Token::RightBlock => Option::Some(Seq::empty()),
            Token::Whitespace => head_words_spec(tokens, i + 1),
            Token::Word => match head_words_spec(tokens, i + 1) {
                Option::Some(rest) => Option::Some(seq![tokens[i].slice@] + rest),
                Option::None => Option::None,
            },
            _ => Option::None,
        }
    }
}

/// Token kinds the text rule merges into one run.
pub open spec fn is_text_token(token: Token) -> bool {
    token is Word || token is Whitespace || token is Punctuation || token is Equals
        || token is Pipe || token is StringLiteral
}

/// Every token in the range is one the text rule merges.
pub open spec fn all_text_kinds(
    tokens: Seq<crate::token::ExtractedToken>,
    from: int,
    to: int,
) -> bool {
    forall|j: int| from <= j < to ==> is_text_token((#[trigger] tokens[j]).token)
}

/// The tokens' text over the range, concatenated in order.
pub open spec fn concat_slices(
    tokens: Seq<crate::token::ExtractedToken>,
    from: int,
    to: int,
) -> Seq<char>
    decreases to - from,
{
    if from < to {
        tokens[from].slice@ + concat_slices(tokens, from + 1, to)
    } else {
        Seq::empty()
    }
}

/// Extending the range by one token on the right appends its text.
pub proof fn lemma_concat_slices_snoc(
    tokens: Seq<crate::token::ExtractedToken>,
    from: int,
    to: int,
)
    requires
        from <= to,
    ensures
        concat_slices(tokens, from, to + 1) == concat_slices(tokens, from, to)
            + tokens[to].slice@,
    decreases to - from,
{
    if from < to {
        lemma_concat_slices_snoc(tokens, from + 1, to);
        assert(tokens[from].slice@ + (concat_slices(tokens, from + 1, to) + tokens[to].slice@)
            =~= (tokens[from].slice@ + concat_slices(tokens, from + 1, to))
            + tokens[to].slice@);
    } else {
        assert(concat_slices(tokens, from, to) =~= Seq::<char>::empty());
        assert(concat_slices(tokens, to + 1, to + 1) =~= Seq::<char>::empty());
        assert(concat_slices(tokens, from, to + 1) =~= concat_slices(tokens, from, to)
            + tokens[to].slice@);
    }
}

/// The level a heading marker's text selects: one `+` per level, held
/// to the range one through six.
pub open spec fn heading_level(slice: Seq<char>) -> nat {
    if slice.len() == 0 {
        1
    } else if slice.len() >= 6 {
        6
    } else {
        slice.len()
    }
}

/// A plain text element holding exactly the given text.
pub open spec fn is_text_element(e: Element, text: Seq<char>) -> bool {
    match e {
        Element::Text(s) => s@ == text,
        _ => false,
    }
}

/// A paragraph container, without attributes, holding the given children.
pub open spec fn is_paragraph_of(e: Element, children: Seq<Element>) -> bool {
    match e {
        Element::Container(ct, ch, attrs) => ct == ContainerType::Paragraph && ch@ == children
            && attrs@.len() == 0,
        _ => false,
    }
}

/// A paragraph holding one plain text element with the given text.
pub open spec fn is_text_paragraph(e: Element, text: Seq<char>) -> bool {
    match e {
        Element::Container(ct, ch, attrs) => ct == ContainerType::Paragraph && attrs@.len() == 0
            && ch@.len() == 1 && is_text_element(ch@[0], text),
        _ => false,
    }
}

/// Where the cursor stands after a well-read block head: one past its
/// `]]`. Meaningful only where `head_words_spec` reads the head well.
pub open spec fn head_end_spec(tokens: Seq<crate::token::ExtractedToken>, i: int) -> int
    decreases tokens.len() - i,
{
    if i < 0 || i >= tokens.len() {
        i
    } else {
        match tokens[i].token {
            Token::RightBlock => i + 1,
            Token::Whitespace => head_end_spec(tokens, i + 1),
            Token::Word => head_end_spec(tokens, i + 1),
            _ => i,
        }
    }
}

/// Whether the token's text reads exactly as the given literal.
pub fn slice_is(slice: &String, lit: &str) -> (b: bool)
    ensures
        b == (slice@ == lit@),
{
    slice.eq(&lit.to_owned())
}

/// Whether the text rule merges this token kind into a run.
fn is_text_kind(token: Token) -> (b: bool)
    ensures
        b == is_text_token(token),
{
    match token {
        Token::Word => true,
        Token::Whitespace => true,
        Token::Punctuation => true,
        Token::Equals => true,
        Token::Pipe => true,
        Token::StringLiteral => true,
        _ => false,
    }
}

/// A successful outcome carrying one element and no exceptions.
fn single_ok(e: Element, paragraph_safe: bool) -> (s: ParseSuccess<Elements>)
    requires
        paragraph_safe ==> !(e is FootnoteBlock),
    ensures
        s.item == Elements::Single(e),
        s.item@ == seq![e],
        count_footnote_blocks(s.item@) == if e is FootnoteBlock {
            1int
        } else {
            0int
        },
        s.exceptions@.len() == 0,
        s.paragraph_safe == paragraph_safe,
{
    proof {
        lemma_count_fb_one(e);
    }
    ParseSuccess { item: Elements::Single(e), exceptions: Vec::new(), paragraph_safe }
}

/// A successful outcome carrying nothing.
fn empty_ok(paragraph_safe: bool) -> (s: ParseSuccess<Elements>)
    ensures
        s.item == Elements::Empty,
        s.item@ == Seq::<Element>::empty(),
        count_footnote_blocks(s.item@) == 0,
        s.exceptions@.len() == 0,
        s.paragraph_safe == paragraph_safe,
{
    proof {
        assert(count_footnote_blocks(Seq::<Element>::empty()) == 0);
    }
    ParseSuccess { item: Elements::Empty, exceptions: Vec::new(), paragraph_safe }
}

/// The fallback rule: consume the current token as plain text, then merge
/// every directly following text-like token into the same `Text` element,
/// whose text is exactly the consumed tokens' slices concatenated.
#[verifier::loop_isolation(false)]
fn try_text<'t>(parser: &mut Parser<'t>) -> (s: ParseSuccess<Elements>)
    requires
        old(parser).wf(),
        old(parser).index < old(parser).tokens@.len(),
    ensures
        final(parser).wf(),
        rule_frame(*old(parser), *final(parser)),
        old(parser).same_acc(final(parser)),
        final(parser).index > old(parser).index,
        rule_ok(*old(parser), *final(parser), s),
        s.paragraph_safe,
        s.exceptions@.len() == 0,
        s.item is Single,
        s.item@.len() == 1,
        is_text_element(
            s.item@[0],
            concat_slices(
                old(parser).tokens@,
                old(parser).index as int,
                final(parser).index as int,
            ),
        ),
        all_text_kinds(old(parser).tokens@, old(parser).index + 1, final(parser).index as int),
        final(parser).index == final(parser).tokens@.len() || !is_text_token(
            final(parser).tokens@[final(parser).index as int].token,
        ),
    decreases remaining(*parser), 0int,
{
    let ghost p0 = *parser;
    let mut text = String::new();
    let first = match parser.look() {
        Some(t) => t,
        None => {
            proof {
                assert(false);
            }
            return empty_ok(true);
        },
    };
    text.append(first.slice.as_str());
    parser.step();
    proof {
        assert(concat_slices(p0.tokens@, p0.index + 1, p0.index + 1) =~= Seq::<char>::empty());
        assert(text@ =~= concat_slices(p0.tokens@, p0.index as int, parser.index as int));
    }
    loop
        invariant
            parser.wf(),
            rule_frame(p0, *parser),
            p0.same_acc(parser),
            parser.index > p0.index,
            text@ == concat_slices(p0.tokens@, p0.index as int, parser.index as int),
            all_text_kinds(p0.tokens@, p0.index + 1, parser.index as int),
        decreases remaining(*parser),
    {
        let more = match parser.look() {
            Some(t) => {
                if is_text_kind(t.token) {
                    proof {
                        lemma_concat_slices_snoc(p0.tokens@, p0.index as int, parser.index as int);
                    }
                    text.append(t.slice.as_str());
                    true
                } else {
                    false
                }
            },
            None => false,
        };
        if more {
            parser.step();
        } else {
            break;
        }
    }
    single_ok(Element::Text(text), true)
}

/// Inline dispatch, for contexts that allow only formatting and text:
/// bold runs recurse, everything else falls to the text rule.
#[verifier::loop_isolation(false)]
fn consume_inline<'t>(parser: &mut Parser<'t>) -> (s: ParseSuccess<Elements>)
    requires
        old(parser).wf(),
        old(parser).index < old(parser).tokens@.len(),
    ensures
        final(parser).wf(),
        rule_frame(*old(parser), *final(parser)),
        acc_view_eq(*old(parser), *final(parser)),
        final(parser).index > old(parser).index,
        rule_ok(*old(parser), *final(parser), s),
        s.paragraph_safe,
        is_text_token(old(parser).tokens@[old(parser).index as int].token) ==> s.item@.len() == 1
            && is_text_element(
            s.item@[0],
            concat_slices(
                old(parser).tokens@,
                old(parser).index as int,
                final(parser).index as int,
            ),
        ) && all_text_kinds(old(parser).tokens@, old(parser).index + 1, final(parser).index as int)
            && (final(parser).index == final(parser).tokens@.len() || !is_text_token(
            final(parser).tokens@[final(parser).index as int].token,
        )),
    decreases remaining(*parser), 3int,
{
    let is_bold = match parser.look() {
        Some(t) => matches!(t.token, Token::Bold),
        None => false,
    };
    if is_bold {
        let ghost p0 = *parser;
        let flags = TransactionFlags::all();
        parser.start_transaction(flags);
        let ghost p1 = *parser;
        let r = try_bold(parser);
        let ghost p2 = *parser;
        match r {
            Ok(s) => {
                parser.commit();
                proof {
                    lemma_acc_extends_refl(p0, p1);
                    lemma_acc_extends_trans(p0, p1, p2);
                    assert(parser.frames@ =~= p0.frames@);
                    assert(acc_extends(p0, *parser));
                    assert(acc_view_eq(p0, *parser));
                    assert(rule_frame(p0, *parser));
                }
                s
            },
            Err(w) => {
                proof {
                    lemma_acc_extends_refl(p0, p1);
                    lemma_acc_extends_trans(p0, p1, p2);
                    assert(p2.frames@ == p0.frames@.push(p0.snapshot(flags)));
                    lemma_rollback_restores(p0, p2, flags);
                }
                parser.rollback();
                proof {
                    assert(parser.frames@ =~= p0.frames@);
                    lemma_acc_extends_refl(p0, *parser);
                    assert(rule_frame(p0, *parser));
                }
                let ghost pr = *parser;
                let s = try_text(parser);
                proof {
                    lemma_rule_frame_trans(p0, pr, *parser);
                }
                s
            },
        }
    } else {
        try_text(parser)
    }
}

/// A bold run in its simplest shape at the position: `**`, one
/// plain-text run, `**`.
pub open spec fn simple_bold_tokens(
    tokens: Seq<crate::token::ExtractedToken>,
    i: int,
    m: int,
) -> bool {
    &&& 0 <= i < m < tokens.len()
    &&& tokens[i].token is Bold
    &&& all_text_kinds(tokens, i + 1, m)
    &&& tokens[m].token is Bold
}

/// The bold rule: `**`, inline content, `**`. Fails without a closing
/// `**` on the same paragraph.
#[verifier::loop_isolation(false)]
fn try_bold<'t>(parser: &mut Parser<'t>) -> (r: ParseResult<Elements>)
    requires
        old(parser).wf(),
        old(parser).index < old(parser).tokens@.len(),
        old(parser).tokens@[old(parser).index as int].token is Bold,
    ensures
        final(parser).wf(),
        rule_frame(*old(parser), *final(parser)),
        acc_view_eq(*old(parser), *final(parser)),
        match r {
            Ok(s) => {
                &&& final(parser).index > old(parser).index
                &&& rule_ok(*old(parser), *final(parser), s)
                &&& s.paragraph_safe
                &&& s.item@.len() == 1
                &&& (match s.item@[0] {
                    Element::Container(ct, ch, attrs) => ct == ContainerType::Bold
                        && attrs@.len() == 0,
                    _ => false,
                })
            },
            Err(w) => w.span_wf(final(parser).text_len as nat),
        },
        // In the simplest shape — one plain-text run between the two
        // markers — success is owed below the depth bound, and the bold
        // container holds exactly the run's text.
        forall|m: int|
            #[trigger] simple_bold_tokens(old(parser).tokens@, old(parser).index as int, m)
                && old(parser).depth < crate::parser::MAX_DEPTH ==> match r {
                Ok(s) => final(parser).index == m + 1 && (match s.item@[0] {
                    Element::Container(ct, ch, attrs) => {
                        &&& (m == old(parser).index + 1 ==> ch@.len() == 0)
                        &&& (m > old(parser).index + 1 ==> ch@.len() == 1 && is_text_element(
                            ch@[0],
                            concat_slices(old(parser).tokens@, old(parser).index + 1, m),
                        ))
                    },
                    _ => false,
                }),
                Err(w) => false,
            },
    decreases remaining(*parser), 2int,
{
    let ghost p0 = *parser;
    let depth_guard = parser.enter_depth("bold");
    if let Err(w) = depth_guard {
        return Err(w);
    }
    parser.step();
    let mut children: Vec<Element> = Vec::new();
    loop
        invariant
            parser.wf(),
            parser.depth == p0.depth + 1,
            p0.same_base(parser),
            parser.frames@ == p0.frames@,
            p0.index < parser.index <= parser.tokens@.len(),
            acc_view_eq(p0, *parser),
            forall|m: int|
                #[trigger] simple_bold_tokens(p0.tokens@, p0.index as int, m) ==> (parser.index
                    == p0.index + 1 && children@.len() == 0) || (parser.index == m && (m
                    == p0.index + 1 && children@.len() == 0 || m > p0.index + 1
                    && children@.len() == 1 && is_text_element(
                    children@[0],
                    concat_slices(p0.tokens@, p0.index + 1, m),
                ))),
        decreases remaining(*parser),
    {
        let next = match parser.look() {
            Some(t) => t.token,
            None => {
                let w = parser.make_warn(ParseWarningKind::RuleFailed, "bold");
                parser.leave_depth();
                return Err(w);
            },
        };
        match next {
            Token::Bold => {
                parser.step();
                break;
            },
            Token::ParagraphBreak => {
                let w = parser.make_warn(ParseWarningKind::RuleFailed, "bold");
                parser.leave_depth();
                return Err(w);
            },
            _ => {
                let mut s = consume_inline(parser);
                match s.item {
                    Elements::Empty => {},
                    Elements::Single(e) => children.push(e),
                    Elements::Multiple(mut v) => children.append(&mut v),
                }
            },
        }
    }
    parser.leave_depth();
    proof {
        lemma_acc_extends_refl(p0, *parser);
        assert(rule_frame(p0, *parser));
    }
    let container = Element::Container(ContainerType::Bold, children, Vec::new());
    Ok(single_ok(container, true))
}

/// A heading in its simplest shape at the position: the marker, one
/// space, one plain-text run to the end of the line or input.
pub open spec fn simple_heading_tokens(
    tokens: Seq<crate::token::ExtractedToken>,
    i: int,
    m: int,
) -> bool {
    &&& 0 <= i
    &&& i + 2 <= m <= tokens.len()
    &&& tokens[i].token is Heading
    &&& tokens[i + 1].token is Whitespace
    &&& all_text_kinds(tokens, i + 2, m)
    &&& (m == tokens.len() || tokens[m].token is LineBreak || tokens[m].token is ParagraphBreak
        || tokens[m].token is LeftBlockEnd)
}

/// The heading rule: `+`-run, inline title to the end of the line. The
/// title joins the table of contents at depth one less than the level.
#[verifier::loop_isolation(false)]
fn try_heading<'t>(parser: &mut Parser<'t>) -> (r: ParseResult<Elements>)
    requires
        old(parser).wf(),
        old(parser).index < old(parser).tokens@.len(),
        old(parser).tokens@[old(parser).index as int].token is Heading,
    ensures
        final(parser).wf(),
        rule_frame(*old(parser), *final(parser)),
        match r {
            Ok(s) => {
                &&& final(parser).index > old(parser).index
                &&& rule_ok(*old(parser), *final(parser), s)
                &&& !s.paragraph_safe
                &&& final(parser).table_of_contents@ == old(
                    parser,
                ).table_of_contents@.push(final(parser).table_of_contents@.last())
                &&& final(parser).table_of_contents@.last().0 + 1 == heading_level(
                    old(parser).tokens@[old(parser).index as int].slice@,
                )
                &&& s.item@.len() == 1
                &&& (match s.item@[0] {
                    Element::Container(ct, ch, attrs) => ct == ContainerType::Heading(
                        heading_level(old(parser).tokens@[old(parser).index as int].slice@) as u8,
                    ) && attrs@.len() == 0,
                    _ => false,
                })
                &&& final(parser).footnotes@ == old(parser).footnotes@
                &&& final(parser).has_footnote_block == old(parser).has_footnote_block
            },
            Err(w) => w.span_wf(final(parser).text_len as nat) && acc_view_eq(
                *old(parser),
                *final(parser),
            ),
        },
        // In the simplest shape — marker, one space, one plain-text run
        // to the line's end — the entry's title and the heading's
        // children are exactly the run's text.
        forall|m: int|
            #[trigger] simple_heading_tokens(old(parser).tokens@, old(parser).index as int, m)
                ==> match r {
                Ok(s) => final(parser).table_of_contents@.last().1@ == concat_slices(
                    old(parser).tokens@,
                    old(parser).index + 2,
                    m,
                ) && (match s.item@[0] {
                    Element::Container(ct, ch, attrs) => {
                        &&& (m == old(parser).index + 2 ==> ch@.len() == 0)
                        &&& (m > old(parser).index + 2 ==> ch@.len() == 1 && is_text_element(
                            ch@[0],
                            concat_slices(old(parser).tokens@, old(parser).index + 2, m),
                        ))
                    },
                    _ => false,
                }),
                Err(w) => false,
            },
    decreases remaining(*parser), 2int,
{
    let ghost p0 = *parser;
    let (level, start_span) = match parser.look() {
        Some(t) => {
            let n = t.slice.as_str().unicode_len();
            let level: u8 = if n >= 6 {
                6
            } else if n == 0 {
                1
            } else {
                n as u8
            };
            (level, t.span_start)
        },
        None => (1u8, 0usize),
    };
    parser.step();
    // One space between the marker and the title is part of the syntax.
    let skip_ws = match parser.look() {
        Some(t) => matches!(t.token, Token::Whitespace),
        None => false,
    };
    if skip_ws {
        parser.step();
    }
    let mut children: Vec<Element> = Vec::new();
    let mut title = String::new();
    proof {
        assert(concat_slices(p0.tokens@, p0.index + 2, p0.index + 2) =~= Seq::<char>::empty());
    }
    loop
        invariant
            parser.wf(),
            parser.depth == p0.depth,
            p0.same_base(parser),
            parser.frames@ == p0.frames@,
            p0.index < parser.index <= parser.tokens@.len(),
            acc_view_eq(p0, *parser),
            forall|m: int|
                #[trigger] simple_heading_tokens(p0.tokens@, p0.index as int, m) ==> (
                parser.index == p0.index + 2 && title@ =~= Seq::<char>::empty()
                    && children@.len() == 0) || (parser.index == m && title@ == concat_slices(
                    p0.tokens@,
                    p0.index + 2,
                    m,
                ) && (m == p0.index + 2 && children@.len() == 0 || m > p0.index + 2
                    && children@.len() == 1 && is_text_element(
                    children@[0],
                    concat_slices(p0.tokens@, p0.index + 2, m),
                ))),
        decreases remaining(*parser),
    {
        let next = match parser.look() {
            Some(t) => t.token,
            None => { break },
        };
        match next {
            Token::LineBreak => { break },
            Token::ParagraphBreak => { break },
            Token::LeftBlockEnd => { break },
            Token::Word | Token::Whitespace | Token::Punctuation | Token::Equals | Token::Pipe
                | Token::StringLiteral => {
                // The whole plain-text run joins the title.
                let ghost pi = *parser;
                let ghost title0 = title@;
                let s = try_text(parser);
                match s.item {
                    Elements::Empty => {},
                    Elements::Single(e) => {
                        match &e {
                            Element::Text(t) => title.append(t.as_str()),
                            _ => {},
                        }
                        children.push(e);
                    },
                    Elements::Multiple(mut v) => children.append(&mut v),
                }
                proof {
                    assert forall|m: int|
                        #[trigger] simple_heading_tokens(p0.tokens@, p0.index as int, m) implies (
                    parser.index == p0.index + 2 && title@ =~= Seq::<char>::empty()
                        && children@.len() == 0) || (parser.index == m && title@ == concat_slices(
                        p0.tokens@,
                        p0.index + 2,
                        m,
                    ) && (m == p0.index + 2 && children@.len() == 0 || m > p0.index + 2
                        && children@.len() == 1 && is_text_element(
                        children@[0],
                        concat_slices(p0.tokens@, p0.index + 2, m),
                    ))) by {
                        if pi.index == p0.index + 2 && m > p0.index + 2 {
                            if parser.index < m {
                                assert(is_text_token(p0.tokens@[parser.index as int].token));
                                assert(false);
                            }
                            if parser.index > m {
                                assert(is_text_token(p0.tokens@[m as int].token));
                                assert(false);
                            }
                            assert(title0 =~= Seq::<char>::empty());
                            assert(title@ =~= concat_slices(p0.tokens@, p0.index + 2, m));
                        }
                    }
                }
            },
            _ => {
                // Formatting contributes elements, not title text.
                let mut s = consume_inline(parser);
                match s.item {
                    Elements::Empty => {},
                    Elements::Single(e) => children.push(e),
                    Elements::Multiple(mut v) => children.append(&mut v),
                }
            },
        }
    }
    let ghost pe = *parser;
    let depth: usize = (level - 1) as usize;
    parser.push_toc(depth, title);
    proof {
        lemma_acc_extends_refl(p0, pe);
        assert(parser.table_of_contents@ == pe.table_of_contents@.push((depth, title)));
        assert(pe.table_of_contents@.is_prefix_of(parser.table_of_contents@)) by {
            assert(pe.table_of_contents@ =~= parser.table_of_contents@.subrange(
                0,
                pe.table_of_contents@.len() as int,
            ));
        }
        lemma_acc_extends_trans(p0, pe, *parser);
        assert(rule_frame(p0, *parser));
    }
    let container = Element::Container(ContainerType::Heading(level), children, Vec::new());
    Ok(single_ok(container, false))
}

/// Read a block head up to its `]]`: the word atoms, whitespace skipped.
/// Fails with `BlockMissingCloseBrackets` when the line or input ends, or
/// any other token intervenes, before the brackets close.
#[verifier::loop_isolation(false)]
pub(crate) fn get_head_words<'t>(parser: &mut Parser<'t>, rule: &str) -> (r: Result<
    Vec<String>,
    ParseWarning,
>)
    requires
        old(parser).wf(),
    ensures
        final(parser).wf(),
        rule_frame(*old(parser), *final(parser)),
        old(parser).same_acc(final(parser)),
        final(parser).depth == old(parser).depth,
        match r {
            Ok(words) => final(parser).index > old(parser).index && head_words_spec(
                old(parser).tokens@,
                old(parser).index as int,
            ) == Option::Some(words.deep_view()) && final(parser).index == head_end_spec(
                old(parser).tokens@,
                old(parser).index as int,
            ),
            Err(w) => w.span_wf(final(parser).text_len as nat) && w.kind
                == ParseWarningKind::BlockMissingCloseBrackets && head_words_spec(
                old(parser).tokens@,
                old(parser).index as int,
            ) is None,
        },
    decreases remaining(*parser), 1int,
{
    let ghost p0 = *parser;
    let mut words: Vec<String> = Vec::new();
    loop
        invariant
            parser.wf(),
            parser.depth == p0.depth,
            p0.same_base(parser),
            parser.frames == p0.frames,
            p0.index <= parser.index <= parser.tokens@.len(),
            p0.same_acc(parser),
            head_words_spec(p0.tokens@, p0.index as int) == match head_words_spec(
                parser.tokens@,
                parser.index as int,
            ) {
                Option::Some(rest) => Option::Some(words.deep_view() + rest),
                Option::None => Option::<Seq<Seq<char>>>::None,
            },
            head_end_spec(p0.tokens@, p0.index as int) == head_end_spec(
                parser.tokens@,
                parser.index as int,
            ),
        decreases remaining(*parser),
    {
        let next = match parser.look() {
            Some(t) => t.token,
            None => {
                return Err(parser.make_warn(ParseWarningKind::BlockMissingCloseBrackets, rule));
            },
        };
        match next {
            Token::RightBlock => {
                parser.step();
                proof {
                    assert(words.deep_view() + Seq::<Seq<char>>::empty() =~= words.deep_view());
                }
                return Ok(words);
            },
            Token::Whitespace => {
                parser.step();
            },
            Token::Word => {
                let ghost w0 = words.deep_view();
                let ghost cur = parser.index as int;
                match parser.look() {
                    Some(t) => words.push(t.slice.clone()),
                    None => {},
                }
                parser.step();
                proof {
                    assert(words.deep_view() =~= w0.push(p0.tokens@[cur].slice@));
                    if head_words_spec(parser.tokens@, parser.index as int) is Some {
                        let rest = head_words_spec(parser.tokens@, parser.index as int)->0;
                        assert(w0 + (seq![p0.tokens@[cur].slice@] + rest) =~= words.deep_view()
                            + rest);
                    }
                }
            },
            _ => {
                return Err(parser.make_warn(ParseWarningKind::BlockMissingCloseBrackets, rule));
            },
        }
    }
}

/// Consume a block's end tag `[[/ name ]]`; the name must match.
#[verifier::loop_isolation(false)]
pub(crate) fn consume_block_end<'t>(parser: &mut Parser<'t>, name: &str, rule: &str) -> (r: Result<
    (),
    ParseWarning,
>)
    requires
        old(parser).wf(),
    ensures
        final(parser).wf(),
        rule_frame(*old(parser), *final(parser)),
        old(parser).same_acc(final(parser)),
        final(parser).depth == old(parser).depth,
        match r {
            Ok(()) => final(parser).index > old(parser).index,
            Err(w) => w.span_wf(final(parser).text_len as nat) && (w.kind
                == ParseWarningKind::BlockExpectedEnd || w.kind
                == ParseWarningKind::BlockMissingCloseBrackets),
        },
        is_block_end_at(old(parser).tokens@, old(parser).index as int, name@) ==> r is Ok
            && final(parser).index == old(parser).index + 3,
    decreases remaining(*parser), 1int,
{
    let at_end_tag = match parser.look() {
        Some(t) => matches!(t.token, Token::LeftBlockEnd),
        None => false,
    };
    if !at_end_tag {
        return Err(parser.make_warn(ParseWarningKind::BlockExpectedEnd, rule));
    }
    parser.step();
    let name_matches = match parser.look() {
        Some(t) => matches!(t.token, Token::Word) && slice_is(&t.slice, name),
        None => false,
    };
    if !name_matches {
        return Err(parser.make_warn(ParseWarningKind::BlockExpectedEnd, rule));
    }
    parser.step();
    let closed = match parser.look() {
        Some(t) => matches!(t.token, Token::RightBlock),
        None => false,
    };
    if !closed {
        return Err(parser.make_warn(ParseWarningKind::BlockMissingCloseBrackets, rule));
    }
    parser.step();
    Ok(())
}

/// A well-formed block end tag `[[/ name ]]` stands at the position.
pub open spec fn is_block_end_at(
    tokens: Seq<crate::token::ExtractedToken>,
    i: int,
    name: Seq<char>,
) -> bool {
    &&& 0 <= i
    &&& i + 2 < tokens.len()
    &&& tokens[i].token is LeftBlockEnd
    &&& tokens[i + 1].token is Word
    &&& tokens[i + 1].slice@ == name
    &&& tokens[i + 2].token is RightBlock
}

/// A footnote block in its simplest shape at the position: closed head,
/// one plain-text run as the body, then the matching end tag.
pub open spec fn simple_footnote_tokens(
    tokens: Seq<crate::token::ExtractedToken>,
    i: int,
    m: int,
) -> bool {
    &&& 0 <= i < tokens.len()
    &&& tokens[i].token is RightBlock
    &&& i + 1 <= m
    &&& all_text_kinds(tokens, i + 1, m)
    &&& is_block_end_at(tokens, m, "footnote"@)
}

/// The footnote rule: `[[footnote]]`, an inline body, `[[/footnote]]`.
/// The body is pushed onto the footnote accumulator and a reference to
/// its index takes its place in the text.
#[verifier::loop_isolation(false)]
fn try_footnote<'t>(parser: &mut Parser<'t>) -> (r: ParseResult<Elements>)
    requires
        old(parser).wf(),
        !no_footnote_constructs(old(parser).tokens@),
    ensures
        final(parser).wf(),
        rule_frame(*old(parser), *final(parser)),
        match r {
            Ok(s) => {
                &&& final(parser).index > old(parser).index
                &&& rule_ok(*old(parser), *final(parser), s)
                &&& s.paragraph_safe
                &&& final(parser).footnotes@.len() == old(parser).footnotes@.len() + 1
                &&& s.item matches Elements::Single(e) && e == Element::FootnoteRef(
                    old(parser).footnotes@.len() as usize,
                )
            },
            Err(w) => w.span_wf(final(parser).text_len as nat) && acc_view_eq(
                *old(parser),
                *final(parser),
            ),
        },
        // In the simplest shape — closed head, one plain-text run, the
        // matching end tag — success is owed and the pushed footnote is
        // exactly the run's text.
        forall|m: int|
            #[trigger] simple_footnote_tokens(
                old(parser).tokens@,
                old(parser).index as int,
                m,
            ) ==> r is Ok && (m == old(parser).index + 1
                ==> final(parser).footnotes@.last()@.len() == 0) && (m > old(parser).index + 1
                ==> final(parser).footnotes@.last()@.len() == 1 && is_text_element(
                final(parser).footnotes@.last()@[0],
                concat_slices(old(parser).tokens@, old(parser).index + 1, m),
            )),
    decreases remaining(*parser), 2int,
{
    let ghost p0 = *parser;
    let closed_head = match parser.look() {
        Some(t) => matches!(t.token, Token::RightBlock),
        None => false,
    };
    if !closed_head {
        return Err(parser.make_warn(ParseWarningKind::BlockMissingCloseBrackets, "footnote"));
    }
    parser.step();
    let mut contents: Vec<Element> = Vec::new();
    loop
        invariant
            parser.wf(),
            parser.depth == p0.depth,
            p0.same_base(parser),
            parser.frames@ == p0.frames@,
            p0.index < parser.index <= parser.tokens@.len(),
            acc_view_eq(p0, *parser),
            forall|m: int|
                #[trigger] simple_footnote_tokens(p0.tokens@, p0.index as int, m) ==> (
                parser.index == p0.index + 1 && contents@.len() == 0) || (parser.index == m && (m
                    == p0.index + 1 && contents@.len() == 0 || m > p0.index + 1
                    && contents@.len() == 1 && is_text_element(
                    contents@[0],
                    concat_slices(p0.tokens@, p0.index + 1, m),
                ))),
        decreases remaining(*parser),
    {
        let next = match parser.look() {
            Some(t) => t.token,
            None => {
                return Err(parser.make_warn(ParseWarningKind::EndOfInput, "footnote"));
            },
        };
        match next {
            Token::LeftBlockEnd => { break },
            Token::ParagraphBreak => {
                return Err(parser.make_warn(ParseWarningKind::BlockExpectedEnd, "footnote"));
            },
            Token::LineBreak => {
                parser.step();
            },
            _ => {
                let mut s = consume_inline(parser);
                match s.item {
                    Elements::Empty => {},
                    Elements::Single(e) => contents.push(e),
                    Elements::Multiple(mut v) => contents.append(&mut v),
                }
            },
        }
    }
    let end = consume_block_end(parser, "footnote", "footnote");
    if let Err(w) = end {
        return Err(w);
    }
    let ghost pe = *parser;
    let index = parser.footnotes.len();
    parser.push_footnote(contents);
    proof {
        lemma_acc_extends_refl(p0, pe);
        assert(pe.footnotes@.is_prefix_of(parser.footnotes@)) by {
            assert(pe.footnotes@ =~= parser.footnotes@.subrange(0, pe.footnotes@.len() as int));
        }
        lemma_acc_extends_trans(p0, pe, *parser);
        assert(rule_frame(p0, *parser));
    }
    Ok(single_ok(Element::FootnoteRef(index), true))
}

/// The footnote-block rule: `[[footnoteblock]]` places the block that
/// lists all footnotes. A second one places nothing, so the tree never
/// holds two.
#[verifier::loop_isolation(false)]
fn try_footnoteblock<'t>(parser: &mut Parser<'t>) -> (r: ParseResult<Elements>)
    requires
        old(parser).wf(),
        !no_footnote_constructs(old(parser).tokens@),
    ensures
        final(parser).wf(),
        rule_frame(*old(parser), *final(parser)),
        match r {
            Ok(s) => final(parser).index > old(parser).index && rule_ok(
                *old(parser),
                *final(parser),
                s,
            ) && !s.paragraph_safe && final(parser).has_footnote_block,
            Err(w) => w.span_wf(final(parser).text_len as nat) && acc_view_eq(
                *old(parser),
                *final(parser),
            ),
        },
    decreases remaining(*parser), 2int,
{
    let closed_head = match parser.look() {
        Some(t) => matches!(t.token, Token::RightBlock),
        None => false,
    };
    if !closed_head {
        return Err(
            parser.make_warn(ParseWarningKind::BlockMissingCloseBrackets, "footnoteblock"),
        );
    }
    parser.step();
    if parser.has_footnote_block {
        Ok(empty_ok(false))
    } else {
        parser.mark_has_footnote_block();
        Ok(single_ok(Element::FootnoteBlock(Option::None, false), false))
    }
}

/// The table-of-contents rule: `[[toc]]` places the marker where the
/// table is rendered; at most one.
#[verifier::loop_isolation(false)]
fn try_toc<'t>(parser: &mut Parser<'t>) -> (r: ParseResult<Elements>)
    requires
        old(parser).wf(),
    ensures
        final(parser).wf(),
        rule_frame(*old(parser), *final(parser)),
        match r {
            Ok(s) => final(parser).index > old(parser).index && rule_ok(
                *old(parser),
                *final(parser),
                s,
            ) && !s.paragraph_safe && final(parser).has_toc_block,
            Err(w) => w.span_wf(final(parser).text_len as nat) && acc_view_eq(
                *old(parser),
                *final(parser),
            ),
        },
    decreases remaining(*parser), 2int,
{
    let closed_head = match parser.look() {
        Some(t) => matches!(t.token, Token::RightBlock),
        None => false,
    };
    if !closed_head {
        return Err(parser.make_warn(ParseWarningKind::BlockMissingCloseBrackets, "toc"));
    }
    parser.step();
    if parser.has_toc_block {
        Ok(empty_ok(false))
    } else {
        parser.mark_has_toc_block();
        Ok(single_ok(Element::TableOfContents, false))
    }
}

/// The image rule: `[[image source]]` becomes an image element with no
/// link, no alignment, and no extra attributes.
#[verifier::loop_isolation(false)]
fn try_image<'t>(parser: &mut Parser<'t>) -> (r: ParseResult<Elements>)
    requires
        old(parser).wf(),
    ensures
        final(parser).wf(),
        rule_frame(*old(parser), *final(parser)),
        old(parser).same_acc(final(parser)),
        match r {
            Ok(s) => final(parser).index > old(parser).index && rule_ok(
                *old(parser),
                *final(parser),
                s,
            ) && s.paragraph_safe,
            Err(w) => w.span_wf(final(parser).text_len as nat),
        },
    decreases remaining(*parser), 2int,
{
    let words = match get_head_words(parser, "image") {
        Ok(w) => w,
        Err(w) => {
            return Err(w);
        },
    };
    if words.len() == 0 {
        return Err(parser.make_warn(ParseWarningKind::BlockMissingArguments, "image"));
    }
    let mut words = words;
    let source = words.remove(0);
    let image = Element::Image(source, Option::None, Option::None, Option::None, Vec::new());
    Ok(single_ok(image, true))
}

/// An iftags block whose name directly follows `[[` but whose head
/// never closes, under settings whose filters admit the block.
pub open spec fn malformed_iftags_at(
    tokens: Seq<crate::token::ExtractedToken>,
    i: int,
    settings: crate::settings::WikitextSettings,
) -> bool {
    &&& 0 <= i
    &&& i + 1 < tokens.len()
    &&& tokens[i].token is LeftBlock
    &&& tokens[i + 1].token is Word
    &&& tokens[i + 1].slice@ == "iftags"@
    &&& head_words_spec(tokens, i + 2) is None
    &&& !settings.disable_block_names.deep_view().contains("iftags"@)
    &&& (settings.enable_block_names@.len() == 0
        || settings.enable_block_names.deep_view().contains("iftags"@))
}

/// The block entry rule: `[[`, a name, then the named block's own parse
/// function. An unknown name fails the rule, so the brackets fall through
/// to the text rule.
#[verifier::loop_isolation(false)]
fn try_block<'t>(parser: &mut Parser<'t>) -> (r: ParseResult<Elements>)
    requires
        old(parser).wf(),
        old(parser).index < old(parser).tokens@.len(),
        old(parser).tokens@[old(parser).index as int].token is LeftBlock,
    ensures
        final(parser).wf(),
        rule_frame(*old(parser), *final(parser)),
        match r {
            Ok(s) => final(parser).index > old(parser).index && rule_ok(
                *old(parser),
                *final(parser),
                s,
            ),
            Err(w) => w.span_wf(final(parser).text_len as nat),
        },
        malformed_iftags_at(old(parser).tokens@, old(parser).index as int, *old(parser).settings)
            ==> match r {
            Ok(s) => false,
            Err(w) => w.kind == ParseWarningKind::BlockMissingCloseBrackets,
        },
    decreases remaining(*parser), 3int,
{
    let ghost p0 = *parser;
    parser.step();
    // Whitespace may separate the brackets from the name.
    let skip_ws = match parser.look() {
        Some(t) => matches!(t.token, Token::Whitespace),
        None => false,
    };
    if skip_ws {
        parser.step();
    }
    let ghost name_index = parser.index as int;
    let name = match parser.look() {
        Some(t) => {
            if matches!(t.token, Token::Word) {
                t.slice.clone()
            } else {
                return Err(parser.make_warn(ParseWarningKind::BlockMissingName, "block"));
            }
        },
        None => {
            return Err(parser.make_warn(ParseWarningKind::BlockMissingName, "block"));
        },
    };
    proof {
        assert(parser.tokens@[name_index].token is Word);
        assert(parser.tokens@[name_index].slice@ == name@);
    }
    // The settings' static filters on the rule table.
    if crate::condition::tags_contain(&parser.settings.disable_block_names, &name) {
        return Err(parser.make_warn(ParseWarningKind::RuleFailed, "block"));
    }
    if parser.settings.enable_block_names.len() > 0 && !crate::condition::tags_contain(
        &parser.settings.enable_block_names,
        &name,
    ) {
        return Err(parser.make_warn(ParseWarningKind::RuleFailed, "block"));
    }
    parser.step();
    // A space before the head arguments or the closing brackets.
    let skip_ws2 = match parser.look() {
        Some(t) => matches!(t.token, Token::Whitespace),
        None => false,
    };
    if skip_ws2 {
        parser.step();
    }
    let ghost named = *parser;
    let r = if slice_is(&name, "iftags") {
        crate::iftags::parse_fn(parser, &name, false, false, true)
    } else if slice_is(&name, "footnote") {
        proof {
            assert(crate::parser::is_footnote_word(parser.tokens@[name_index].slice@));
            assert(crate::parser::follows_block_open(parser.tokens@, name_index));
            assert(!no_footnote_constructs(parser.tokens@));
        }
        try_footnote(parser)
    } else if slice_is(&name, "footnoteblock") {
        proof {
            assert(crate::parser::is_footnote_word(parser.tokens@[name_index].slice@));
            assert(crate::parser::follows_block_open(parser.tokens@, name_index));
            assert(!no_footnote_constructs(parser.tokens@));
        }
        try_footnoteblock(parser)
    } else if slice_is(&name, "toc") {
        try_toc(parser)
    } else if slice_is(&name, "image") {
        try_image(parser)
    } else {
        Err(parser.make_warn(ParseWarningKind::RuleFailed, "block"))
    };
    proof {
        lemma_rule_frame_trans(p0, named, *parser);
    }
    r
}

/// Which rule a dispatch attempt runs.
enum AttemptRule {
    HeadingRule,
    BoldRule,
    BlockRule,
}

/// One dispatch attempt: run the chosen rule inside a transaction that
/// guards everything. Success commits; failure rolls the parser back to
/// exactly the state before the attempt and hands the warning back.
#[verifier::loop_isolation(false)]
fn attempt<'t>(parser: &mut Parser<'t>, which: AttemptRule) -> (r: ParseResult<Elements>)
    requires
        old(parser).wf(),
        old(parser).index < old(parser).tokens@.len(),
        which is HeadingRule ==> old(parser).tokens@[old(parser).index as int].token is Heading,
        which is BoldRule ==> old(parser).tokens@[old(parser).index as int].token is Bold,
        which is BlockRule ==> old(parser).tokens@[old(parser).index as int].token is LeftBlock,
    ensures
        final(parser).wf(),
        rule_frame(*old(parser), *final(parser)),
        match r {
            Ok(s) => final(parser).index > old(parser).index && rule_ok(
                *old(parser),
                *final(parser),
                s,
            ),
            Err(w) => w.span_wf(final(parser).text_len as nat) && final(parser).index == old(
                parser,
            ).index && acc_view_eq(*old(parser), *final(parser)) && final(parser).depth == old(
                parser,
            ).depth,
        },
        (which is BlockRule && malformed_iftags_at(
            old(parser).tokens@,
            old(parser).index as int,
            *old(parser).settings,
        )) ==> match r {
            Ok(s) => false,
            Err(w) => w.kind == ParseWarningKind::BlockMissingCloseBrackets,
        },
    decreases remaining(*parser), 4int,
{
    let ghost p0 = *parser;
    let flags = TransactionFlags::all();
    parser.start_transaction(flags);
    let ghost p1 = *parser;
    let r = match which {
        AttemptRule::HeadingRule => try_heading(parser),
        AttemptRule::BoldRule => try_bold(parser),
        AttemptRule::BlockRule => try_block(parser),
    };
    let ghost p2 = *parser;
    match r {
        Ok(s) => {
            parser.commit();
            proof {
                lemma_acc_extends_refl(p0, p1);
                lemma_acc_extends_trans(p0, p1, p2);
                assert(parser.frames@ =~= p0.frames@);
                assert(acc_extends(p0, *parser));
                assert(rule_frame(p0, *parser));
            }
            Ok(s)
        },
        Err(w) => {
            proof {
                lemma_acc_extends_refl(p0, p1);
                lemma_acc_extends_trans(p0, p1, p2);
                assert(p2.frames@ == p0.frames@.push(p0.snapshot(flags)));
                lemma_rollback_restores(p0, p2, flags);
            }
            parser.rollback();
            proof {
                assert(parser.frames@ =~= p0.frames@);
                lemma_acc_extends_refl(p0, *parser);
                assert(acc_view_eq(p0, *parser));
                assert(rule_frame(p0, *parser));
            }
            Err(w)
        },
    }
}

/// Rule dispatch on the current token. A failed rule leaves no trace: its
/// warning joins the exceptions and the text rule consumes the token
/// instead, so consumption always advances the cursor. Only a depth
/// overrun aborts the parse.
#[verifier::loop_isolation(false)]
pub(crate) fn consume<'t>(parser: &mut Parser<'t>) -> (r: ParseResult<Elements>)
    requires
        old(parser).wf(),
        old(parser).index < old(parser).tokens@.len(),
    ensures
        final(parser).wf(),
        rule_frame(*old(parser), *final(parser)),
        match r {
            Ok(s) => final(parser).index > old(parser).index && rule_ok(
                *old(parser),
                *final(parser),
                s,
            ),
            Err(w) => w.span_wf(final(parser).text_len as nat) && w.kind
                == ParseWarningKind::MaxDepthExceeded && final(parser).index == old(parser).index
                && acc_view_eq(*old(parser), *final(parser)),
        },
        // A malformed iftags block degrades: its close-brackets warning
        // is surfaced among the exceptions and the raw brackets fall
        // through to the text rule.
        malformed_iftags_at(old(parser).tokens@, old(parser).index as int, *old(parser).settings)
            ==> match r {
            Ok(s) => s.exceptions@.len() == 1 && (match s.exceptions@[0] {
                ParseException::Warning(w) => w.kind
                    == ParseWarningKind::BlockMissingCloseBrackets,
            }) && s.item@.len() == 1 && (s.item@[0] is Text),
            Err(w) => false,
        },
        is_text_token(old(parser).tokens@[old(parser).index as int].token) ==> match r {
            Ok(s) => {
                &&& acc_view_eq(*old(parser), *final(parser))
                &&& s.exceptions@.len() == 0
                &&& s.paragraph_safe
                &&& s.item@.len() == 1
                &&& is_text_element(
                    s.item@[0],
                    concat_slices(
                        old(parser).tokens@,
                        old(parser).index as int,
                        final(parser).index as int,
                    ),
                )
                &&& all_text_kinds(
                    old(parser).tokens@,
                    old(parser).index + 1,
                    final(parser).index as int,
                )
                &&& final(parser).index == final(parser).tokens@.len() || !is_text_token(
                    final(parser).tokens@[final(parser).index as int].token,
                )
            },
            Err(w) => false,
        },
    decreases remaining(*parser), 5int,
{
    let ghost p0 = *parser;
    let current = match parser.look() {
        Some(t) => t.token,
        None => Token::InputEnd,
    };
    let which = match current {
        Token::LineBreak | Token::ParagraphBreak => {
            parser.step();
            return Ok(empty_ok(true));
        },
        Token::Heading => AttemptRule::HeadingRule,
        Token::Bold => AttemptRule::BoldRule,
        Token::LeftBlock => AttemptRule::BlockRule,
        _ => {
            let s = try_text(parser);
            proof {
                assert(acc_view_eq(p0, *parser));
            }
            return Ok(s);
        },
    };
    let r = attempt(parser, which);
    match r {
        Ok(s) => Ok(s),
        Err(w) => {
            if matches!(w.kind, ParseWarningKind::MaxDepthExceeded) {
                return Err(w);
            }
            let ghost pr = *parser;
            let s = try_text(parser);
            proof {
                lemma_rule_frame_trans(p0, pr, *parser);
            }
            let mut exceptions: Vec<ParseException> = Vec::new();
            exceptions.push(ParseException::Warning(w));
            Ok(
                ParseSuccess {
                    item: s.item,
                    exceptions,
                    paragraph_safe: s.paragraph_safe,
                },
            )
        },
    }
}

/// A body in its simplest shape: one plain-text run, possibly empty,
/// right up to a block end tag.
pub open spec fn plain_text_body(
    tokens: Seq<crate::token::ExtractedToken>,
    b: int,
    m: int,
) -> bool {
    &&& 0 <= b <= m
    &&& m < tokens.len()
    &&& all_text_kinds(tokens, b, m)
    &&& tokens[m].token is LeftBlockEnd
}

/// Gather a block body without paragraph wrapping: consume until the
/// body's end tag comes into view. The caller consumes the end tag.
#[verifier::loop_isolation(false)]
pub(crate) fn collect_body<'t>(parser: &mut Parser<'t>, rule: &str) -> (r: Result<
    (Vec<Element>, Vec<ParseException>, bool),
    ParseWarning,
>)
    requires
        old(parser).wf(),
    ensures
        final(parser).wf(),
        rule_frame(*old(parser), *final(parser)),
        match r {
            Ok((elements, exceptions, paragraph_safe)) => {
                &&& exceptions_wf(exceptions@, final(parser).text_len as nat)
                &&& count_footnote_blocks(elements@) == fb_flag(*final(parser)) - fb_flag(
                    *old(parser),
                )
                &&& (paragraph_safe ==> count_footnote_blocks(elements@) == 0)
            },
            Err(w) => w.span_wf(final(parser).text_len as nat) && (w.kind
                == ParseWarningKind::EndOfInput || w.kind == ParseWarningKind::MaxDepthExceeded),
        },
        // In the simplest shape — one plain-text run up to the end tag —
        // success is owed below the depth bound, and the gathered body is
        // exactly the run's text.
        forall|m: int|
            #[trigger] plain_text_body(old(parser).tokens@, old(parser).index as int, m) && old(
                parser,
            ).depth < crate::parser::MAX_DEPTH ==> match r {
                Ok((elements, exceptions, paragraph_safe)) => {
                    &&& final(parser).index == m
                    &&& exceptions@.len() == 0
                    &&& paragraph_safe
                    &&& (m == old(parser).index ==> elements@.len() == 0)
                    &&& (m > old(parser).index ==> elements@.len() == 1 && is_text_element(
                        elements@[0],
                        concat_slices(old(parser).tokens@, old(parser).index as int, m),
                    ))
                },
                Err(w) => false,
            },
    decreases remaining(*parser), 6int,
{
    let ghost p0 = *parser;
    let depth_guard = parser.enter_depth(rule);
    if let Err(w) = depth_guard {
        proof {
            lemma_acc_extends_refl(p0, *parser);
        }
        return Err(w);
    }
    let ghost pd = *parser;
    let mut elements: Vec<Element> = Vec::new();
    let mut exceptions: Vec<ParseException> = Vec::new();
    let mut paragraph_safe = true;
    loop
        invariant
            parser.wf(),
            parser.depth == p0.depth + 1,
            rule_frame(pd, *parser),
            exceptions_wf(exceptions@, parser.text_len as nat),
            count_footnote_blocks(elements@) == fb_flag(*parser) - fb_flag(p0),
            paragraph_safe ==> count_footnote_blocks(elements@) == 0,
            forall|m: int|
                #[trigger] plain_text_body(p0.tokens@, p0.index as int, m) ==> (parser.index
                    == p0.index && elements@.len() == 0 && exceptions@.len() == 0
                    && paragraph_safe) || (parser.index == m && exceptions@.len() == 0
                    && paragraph_safe && (m == p0.index && elements@.len() == 0 || m > p0.index
                    && elements@.len() == 1 && is_text_element(
                    elements@[0],
                    concat_slices(p0.tokens@, p0.index as int, m),
                ))),
        decreases remaining(*parser),
    {
        let next = match parser.look() {
            Some(t) => t.token,
            None => {
                let w = parser.make_warn(ParseWarningKind::EndOfInput, rule);
                let ghost pe = *parser;
                parser.leave_depth();
                proof {
                    lemma_acc_extends_refl(p0, pd);
                    lemma_acc_extends_trans(p0, pd, pe);
                    assert(rule_frame(p0, *parser));
                }
                return Err(w);
            },
        };
        if matches!(next, Token::LeftBlockEnd) {
            break;
        }
        let ghost pi = *parser;
        match consume(parser) {
            Ok(mut s) => {
                proof {
                    lemma_rule_frame_trans(pd, pi, *parser);
                    lemma_count_footnote_blocks_append(elements@, s.item@);
                }
                let ghost e0 = elements@;
                match s.item {
                    Elements::Empty => {
                        proof {
                            assert(elements@ =~= e0 + s.item@);
                        }
                    },
                    Elements::Single(e) => {
                        elements.push(e);
                        proof {
                            assert(elements@ =~= e0 + s.item@);
                        }
                    },
                    Elements::Multiple(mut v) => {
                        elements.append(&mut v);
                        proof {
                            assert(elements@ =~= e0 + s.item@);
                        }
                    },
                }
                exceptions.append(&mut s.exceptions);
                if !s.paragraph_safe {
                    paragraph_safe = false;
                }
                proof {
                    assert forall|m: int|
                        #[trigger] plain_text_body(p0.tokens@, p0.index as int, m) implies (
                    parser.index == p0.index && elements@.len() == 0 && exceptions@.len() == 0
                        && paragraph_safe) || (parser.index == m && exceptions@.len() == 0
                        && paragraph_safe && (m == p0.index && elements@.len() == 0 || m
                        > p0.index && elements@.len() == 1 && is_text_element(
                        elements@[0],
                        concat_slices(p0.tokens@, p0.index as int, m),
                    ))) by {
                        if pi.index == p0.index && m > p0.index {
                            assert(is_text_token(p0.tokens@[p0.index as int].token));
                            if parser.index < m {
                                assert(is_text_token(
                                    p0.tokens@[parser.index as int].token,
                                ));
                                assert(false);
                            }
                            if parser.index > m {
                                assert(is_text_token(p0.tokens@[m as int].token));
                                assert(false);
                            }
                        }
                    }
                }
            },
            Err(w) => {
                let ghost pe = *parser;
                parser.leave_depth();
                proof {
                    lemma_acc_extends_refl(p0, pd);
                    lemma_acc_extends_trans(p0, pd, pe);
                    assert(rule_frame(p0, *parser));
                }
                return Err(w);
            },
        }
    }
    let ghost pe = *parser;
    parser.leave_depth();
    proof {
        lemma_acc_extends_refl(p0, pd);
        lemma_acc_extends_trans(p0, pd, pe);
        assert(rule_frame(p0, *parser));
    }
    Ok((elements, exceptions, paragraph_safe))
}

/// Whether the gatherer stops only at the end of input, or also when a
/// block end tag comes into view.
#[derive(Clone, Copy, Debug, PartialEq, Eq, Structural)]
pub enum CloseCondition {
    UntilEnd,
    UntilBlockEnd,
}

/// The paragraph gatherer: dispatch in a loop, keeping a buffer of
/// paragraph-safe output that a blank line or an unsafe element flushes
/// into a paragraph container. Reaching the end of input is an error only
/// when a block end tag was required.
#[verifier::loop_isolation(false)]
pub fn gather_paragraphs<'t>(parser: &mut Parser<'t>, rule: &str, close: CloseCondition) -> (r:
    ParseResult<Vec<Element>>)
    requires
        old(parser).wf(),
    ensures
        final(parser).wf(),
        rule_frame(*old(parser), *final(parser)),
        match r {
            Ok(s) => {
                &&& exceptions_wf(s.exceptions@, final(parser).text_len as nat)
                &&& count_footnote_blocks(s.item@) == fb_flag(*final(parser)) - fb_flag(
                    *old(parser),
                )
                &&& close is UntilEnd ==> final(parser).index == final(parser).tokens@.len()
            },
            Err(w) => w.span_wf(final(parser).text_len as nat) && (w.kind
                == ParseWarningKind::MaxDepthExceeded || (close is UntilBlockEnd && w.kind
                == ParseWarningKind::EndOfInput)),
        },
        (close is UntilEnd && old(parser).index == old(parser).tokens@.len()) ==> match r {
            Ok(s) => s.item@.len() == 0 && s.exceptions@.len() == 0 && acc_view_eq(
                *old(parser),
                *final(parser),
            ),
            Err(w) => false,
        },
        (close is UntilEnd && malformed_iftags_at(
            old(parser).tokens@,
            old(parser).index as int,
            *old(parser).settings,
        )) ==> match r {
            Ok(s) => s.exceptions@.len() >= 1 && (match s.exceptions@[0] {
                ParseException::Warning(w) => w.kind
                    == ParseWarningKind::BlockMissingCloseBrackets,
            }),
            Err(w) => true,
        },
        (close is UntilEnd && old(parser).index < old(parser).tokens@.len() && all_text_kinds(
            old(parser).tokens@,
            old(parser).index as int,
            old(parser).tokens@.len() as int,
        )) ==> match r {
            Ok(s) => {
                &&& s.item@.len() == 1
                &&& is_text_paragraph(
                    s.item@[0],
                    concat_slices(
                        old(parser).tokens@,
                        old(parser).index as int,
                        old(parser).tokens@.len() as int,
                    ),
                )
                &&& s.exceptions@.len() == 0
                &&& acc_view_eq(*old(parser), *final(parser))
            },
            Err(w) => false,
        },
    decreases remaining(*parser), 6int,
{
    let ghost p0 = *parser;
    let ghost text_only = close is UntilEnd && p0.index < p0.tokens@.len() && all_text_kinds(
        p0.tokens@,
        p0.index as int,
        p0.tokens@.len() as int,
    );
    let mut out: Vec<Element> = Vec::new();
    let mut buffer: Vec<Element> = Vec::new();
    let mut exceptions: Vec<ParseException> = Vec::new();
    loop
        invariant
            parser.wf(),
            rule_frame(p0, *parser),
            exceptions_wf(exceptions@, parser.text_len as nat),
            count_footnote_blocks(buffer@) == 0,
            count_footnote_blocks(out@) == fb_flag(*parser) - fb_flag(p0),
            close is UntilEnd && p0.index == p0.tokens@.len() ==> out@.len() == 0 && buffer@.len()
                == 0 && exceptions@.len() == 0 && acc_view_eq(p0, *parser),
            (close is UntilEnd && malformed_iftags_at(p0.tokens@, p0.index as int, *p0.settings))
                ==> (parser.index == p0.index && exceptions@.len() == 0) || (exceptions@.len()
                >= 1 && (match exceptions@[0] {
                ParseException::Warning(w) => w.kind
                    == ParseWarningKind::BlockMissingCloseBrackets,
            })),
            text_only ==> out@.len() == 0 && exceptions@.len() == 0 && acc_view_eq(p0, *parser)
                && ((parser.index == p0.index && buffer@.len() == 0) || (parser.index
                == p0.tokens@.len() && buffer@.len() == 1 && is_text_element(
                buffer@[0],
                concat_slices(p0.tokens@, p0.index as int, p0.tokens@.len() as int),
            ))),
        decreases remaining(*parser),
    {
        let next = match parser.look() {
            Some(t) => t.token,
            None => {
                if matches!(close, CloseCondition::UntilBlockEnd) {
                    return Err(parser.make_warn(ParseWarningKind::EndOfInput, rule));
                }
                break;
            },
        };
        if matches!(next, Token::ParagraphBreak) {
            flush_paragraph(&mut out, &mut buffer);
            parser.step();
            continue;
        }
        if matches!(close, CloseCondition::UntilBlockEnd) && matches!(next, Token::LeftBlockEnd) {
            break;
        }
        let ghost pi = *parser;
        match consume(parser) {
            Ok(mut s) => {
                proof {
                    lemma_rule_frame_trans(p0, pi, *parser);
                }
                exceptions.append(&mut s.exceptions);
                if s.paragraph_safe {
                    let ghost b0 = buffer@;
                    proof {
                        lemma_count_footnote_blocks_append(buffer@, s.item@);
                    }
                    match s.item {
                        Elements::Empty => {
                            proof {
                                assert(buffer@ =~= b0 + s.item@);
                            }
                        },
                        Elements::Single(e) => {
                            buffer.push(e);
                            proof {
                                assert(buffer@ =~= b0 + s.item@);
                            }
                        },
                        Elements::Multiple(mut v) => {
                            buffer.append(&mut v);
                            proof {
                                assert(buffer@ =~= b0 + s.item@);
                            }
                        },
                    }
                } else {
                    flush_paragraph(&mut out, &mut buffer);
                    let ghost o0 = out@;
                    proof {
                        lemma_count_footnote_blocks_append(out@, s.item@);
                    }
                    match s.item {
                        Elements::Empty => {
                            proof {
                                assert(out@ =~= o0 + s.item@);
                            }
                        },
                        Elements::Single(e) => {
                            out.push(e);
                            proof {
                                assert(out@ =~= o0 + s.item@);
                            }
                        },
                        Elements::Multiple(mut v) => {
                            out.append(&mut v);
                            proof {
                                assert(out@ =~= o0 + s.item@);
                            }
                        },
                    }
                }
            },
            Err(w) => {
                return Err(w);
            },
        }
    }
    let ghost out_before = out@;
    let ghost buffer_before = buffer@;
    flush_paragraph(&mut out, &mut buffer);
    proof {
        if text_only {
            assert(parser.index == p0.tokens@.len());
            assert(buffer_before.len() == 1);
            assert(out@.len() == 1);
            assert(out@[0] == out@.last());
            assert(is_paragraph_of(out@[0], buffer_before));
            assert(is_text_paragraph(
                out@[0],
                concat_slices(p0.tokens@, p0.index as int, p0.tokens@.len() as int),
            ));
        }
    }
    Ok(ParseSuccess { item: out, exceptions, paragraph_safe: false })
}

/// Close the current paragraph: wrap the buffered elements, if any, in a
/// paragraph container appended to the output.
fn flush_paragraph(out: &mut Vec<Element>, buffer: &mut Vec<Element>)
    ensures
        final(buffer)@.len() == 0,
        count_footnote_blocks(final(out)@) == count_footnote_blocks(old(out)@),
        old(buffer)@.len() == 0 ==> final(out)@ == old(out)@,
        old(buffer)@.len() > 0 ==> final(out)@.len() == old(out)@.len() + 1
            && final(out)@.subrange(0, old(out)@.len() as int) == old(out)@
            && is_paragraph_of(final(out)@.last(), old(buffer)@),
{
    if buffer.len() == 0 {
        return ;
    }
    let mut contents: Vec<Element> = Vec::new();
    core::mem::swap(&mut contents, buffer);
    let ghost o0 = out@;
    out.push(Element::Container(ContainerType::Paragraph, contents, Vec::new()));
    proof {
        assert(out@.drop_last() =~= o0);
        assert(out@.subrange(0, o0.len() as int) =~= o0);
    }
}

} // verus!
