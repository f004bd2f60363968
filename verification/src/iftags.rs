//! The `iftags` conditional block, the archetype of all conditional
//! blocks: `[[iftags conditions]] body [[/iftags]]`.
//!
//! Under a transaction guarding every accumulator: the head's condition
//! atoms are parsed, then the body. If conditionals are bypassed by the
//! settings or the conditions match the page's tags, the transaction is
//! committed and the body's elements are returned; otherwise it is rolled
//! back — the body's footnotes, table-of-contents entries and every other
//! accumulator entry are forgotten — and nothing is returned, keeping
//! only the genuine warnings.

use vstd::prelude::*;
use crate::condition::{condition_matches, conds_of_words, ElementCondition};
use crate::gather::{acc_view_eq, collect_body, concat_slices, consume_block_end, fb_flag,
    get_head_words, head_end_spec, head_words_spec, is_block_end_at, is_text_element,
    plain_text_body, remaining, rule_ok};
use crate::parser::{acc_extends, lemma_acc_extends_refl, lemma_acc_extends_trans,
    lemma_rollback_restores, rule_frame, Parser, TransactionFlags};
use crate::settings::PageInfo;
use crate::tree::{count_footnote_blocks, Elements};
use crate::warning::{ParseResult, ParseSuccess, ParseWarningKind};

verus! {

/// Whether the page's tags satisfy the parsed conditions.
pub fn check_iftags(info: &PageInfo, conditions: &Vec<ElementCondition>) -> (b: bool)
    ensures
        b == condition_matches(
            conditions@.map_values(|c: ElementCondition| c@),
            info.tags.deep_view(),
        ),
{
    ElementCondition::check(conditions, &info.tags)
}

/// The `iftags` parse function. The body's elements and accumulator
/// entries survive if and only if the settings bypass conditionals or the
/// head's condition list matches the page's tags; a discarded body, and
/// every failing path, leaves every accumulator exactly as it was. The
/// caller must hand in the block's accepted name and neither flag, as the
/// block refuses both flags and any other name.
pub fn parse_fn<'t>(
    parser: &mut Parser<'t>,
    name: &str,
    flag_star: bool,
    flag_score: bool,
    in_head: bool,
) -> (r: ParseResult<Elements>)
    requires
        old(parser).wf(),
        !flag_star,
        !flag_score,
        name@ == "iftags"@,
    ensures
        final(parser).wf(),
        rule_frame(*old(parser), *final(parser)),
        !in_head ==> r is Err,
        in_head && head_words_spec(old(parser).tokens@, old(parser).index as int) is None
            ==> r is Err,
        // Each failure names its cause: a missing-arguments error only
        // without a head or on an empty one, a malformed head only as a
        // missing-close error, and the body's errors only past a head
        // that read well.
        match r {
            Ok(s) => true,
            Err(w) => {
                let hw = head_words_spec(old(parser).tokens@, old(parser).index as int);
                &&& (w.kind == ParseWarningKind::BlockMissingArguments ==> !in_head || hw
                    == Option::Some(Seq::<Seq<char>>::empty()))
                &&& (w.kind == ParseWarningKind::BlockMissingCloseBrackets ==> in_head && (
                hw is None || (hw matches Option::Some(ws) && ws.len() > 0)))
                &&& (w.kind == ParseWarningKind::EndOfInput ==> in_head && (hw matches
                    Option::Some(ws) && ws.len() > 0))
                &&& (w.kind == ParseWarningKind::BlockExpectedEnd ==> in_head && (hw matches
                    Option::Some(ws) && ws.len() > 0))
                &&& (w.kind == ParseWarningKind::MaxDepthExceeded ==> in_head && (hw matches
                    Option::Some(ws) && ws.len() > 0))
            },
        },
        // In the simplest shape — a non-empty head, one plain-text run
        // as the body, the matching end tag — success is owed below the
        // depth bound, and an included body is exactly the run's text.
        forall|m: int|
            #![trigger plain_text_body(
                old(parser).tokens@,
                head_end_spec(old(parser).tokens@, old(parser).index as int),
                m,
            )]
            ({
                let hw = head_words_spec(old(parser).tokens@, old(parser).index as int);
                let he = head_end_spec(old(parser).tokens@, old(parser).index as int);
                &&& in_head
                &&& hw matches Option::Some(ws) && ws.len() > 0
                &&& plain_text_body(old(parser).tokens@, he, m)
                &&& is_block_end_at(old(parser).tokens@, m, "iftags"@)
                &&& old(parser).depth < crate::parser::MAX_DEPTH
            }) ==> match r {
                Ok(s) => {
                    let he = head_end_spec(old(parser).tokens@, old(parser).index as int);
                    let included = old(parser).settings.no_conditionals || condition_matches(
                        conds_of_words(
                            head_words_spec(
                                old(parser).tokens@,
                                old(parser).index as int,
                            )->Some_0,
                        ),
                        old(parser).page_info.tags.deep_view(),
                    );
                    &&& final(parser).index == m + 3
                    &&& included ==> (m == he ==> s.item@.len() == 0) && (m > he
                        ==> s.item@.len() == 1 && is_text_element(
                        s.item@[0],
                        concat_slices(old(parser).tokens@, he, m),
                    ))
                },
                Err(w) => false,
            },
        match r {
            Ok(s) => {
                &&& final(parser).index > old(parser).index
                &&& rule_ok(*old(parser), *final(parser), s)
                &&& match head_words_spec(old(parser).tokens@, old(parser).index as int) {
                    Option::Some(ws) => {
                        let included = old(parser).settings.no_conditionals || condition_matches(
                            conds_of_words(ws),
                            old(parser).page_info.tags.deep_view(),
                        );
                        &&& (included ==> s.item is Multiple)
                        &&& (!included ==> s.item is Empty && acc_view_eq(
                            *old(parser),
                            *final(parser),
                        ))
                    },
                    Option::None => false,
                }
            },
            Err(w) => {
                &&& w.span_wf(final(parser).text_len as nat)
                &&& acc_view_eq(*old(parser), *final(parser))
                &&& (w.kind == ParseWarningKind::BlockMissingArguments || w.kind
                    == ParseWarningKind::BlockMissingCloseBrackets || w.kind
                    == ParseWarningKind::BlockExpectedEnd || w.kind
                    == ParseWarningKind::EndOfInput || w.kind
                    == ParseWarningKind::MaxDepthExceeded)
            },
        },
    decreases remaining(*parser), 2int,
{
    let ghost p0 = *parser;
    if !in_head {
        return Err(parser.make_warn(ParseWarningKind::BlockMissingArguments, "iftags"));
    }
    let no_conditionals = parser.settings.no_conditionals;
    let flags = TransactionFlags::accumulators();
    parser.start_transaction(flags);
    let ghost p1 = *parser;
    let words = match get_head_words(parser, "iftags") {
        Ok(w) => w,
        Err(w) => {
            proof {
                lemma_acc_extends_refl(p0, p1);
                lemma_acc_extends_refl(p1, *parser);
                lemma_acc_extends_trans(p0, p1, *parser);
                lemma_rollback_restores(p0, *parser, flags);
            }
            parser.rollback();
            proof {
                assert(parser.frames@ =~= p0.frames@);
                lemma_acc_extends_refl(p0, *parser);
                assert(rule_frame(p0, *parser));
                assert(acc_view_eq(p0, *parser));
            }
            return Err(w);
        },
    };
    let ghost ph = *parser;
    if words.len() == 0 {
        let w = parser.make_warn(ParseWarningKind::BlockMissingArguments, "iftags");
        proof {
            lemma_acc_extends_refl(p0, *parser);
            lemma_rollback_restores(p0, *parser, flags);
        }
        parser.rollback();
        proof {
            assert(parser.frames@ =~= p0.frames@);
            lemma_acc_extends_refl(p0, *parser);
            assert(rule_frame(p0, *parser));
        }
        return Err(w);
    }
    let conditions = ElementCondition::parse(&words);
    let body = match collect_body(parser, "iftags") {
        Ok(t) => t,
        Err(w) => {
            proof {
                lemma_acc_extends_refl(p0, ph);
                lemma_acc_extends_trans(p0, ph, *parser);
                lemma_rollback_restores(p0, *parser, flags);
            }
            parser.rollback();
            proof {
                assert(parser.frames@ =~= p0.frames@);
                lemma_acc_extends_refl(p0, *parser);
                assert(rule_frame(p0, *parser));
                assert(acc_view_eq(p0, *parser));
            }
            return Err(w);
        },
    };
    let (elements, exceptions, paragraph_safe) = body;
    let ghost pb = *parser;
    proof {
        lemma_acc_extends_refl(p0, ph);
        lemma_acc_extends_trans(p0, ph, pb);
    }
    match consume_block_end(parser, "iftags", "iftags") {
        Ok(()) => {},
        Err(w) => {
            proof {
                lemma_acc_extends_refl(pb, *parser);
                lemma_acc_extends_trans(p0, pb, *parser);
                lemma_rollback_restores(p0, *parser, flags);
            }
            parser.rollback();
            proof {
                assert(parser.frames@ =~= p0.frames@);
                lemma_acc_extends_refl(p0, *parser);
                assert(rule_frame(p0, *parser));
                assert(acc_view_eq(p0, *parser));
            }
            return Err(w);
        },
    }
    let ghost pc = *parser;
    proof {
        lemma_acc_extends_refl(pb, pc);
        lemma_acc_extends_trans(p0, pb, pc);
    }
    let included = no_conditionals || check_iftags(parser.page_info, &conditions);
    if included {
        parser.commit();
        proof {
            assert(parser.frames@ =~= p0.frames@);
            assert(acc_extends(p0, *parser));
            assert(rule_frame(p0, *parser));
            assert(count_footnote_blocks(elements@) == fb_flag(*parser) - fb_flag(p0));
        }
        Ok(ParseSuccess { item: Elements::Multiple(elements), exceptions, paragraph_safe })
    } else {
        // Among the exceptions only genuine warnings exist to keep, so
        // discarding the branch passes them all on.
        proof {
            lemma_rollback_restores(p0, *parser, flags);
        }
        parser.rollback();
        proof {
            assert(parser.frames@ =~= p0.frames@);
            lemma_acc_extends_refl(p0, *parser);
            assert(rule_frame(p0, *parser));
            assert(acc_view_eq(p0, *parser));
            assert(count_footnote_blocks(Seq::<crate::tree::Element>::empty()) == 0);
        }
        Ok(ParseSuccess { item: Elements::Empty, exceptions, paragraph_safe })
    }
}

} // verus!
