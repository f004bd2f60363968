//! Tag conditions, as used by conditional blocks.
//!
//! A condition list is given as space-separated atoms, each `+tag`,
//! `-tag`, or a bare `tag`. The list matches a page's tag set iff every
//! `+tag` and every bare `tag` is present and no `-tag` is present; an
//! empty list matches unconditionally.

use vstd::prelude::*;

verus! {

/// How one condition atom constrains the tag it names.
#[derive(Clone, Copy, Debug, PartialEq, Eq, Structural)]
pub enum ElementConditionType {
    /// `+tag`: the tag must be present.
    Required,
    /// `-tag`: the tag must be absent.
    Prohibited,
    /// A bare `tag`: the tag must be present.
    Present,
}

/// One parsed condition: a constraint and the tag it names.
#[derive(Clone, Debug, PartialEq)]
pub struct ElementCondition {
    pub ctype: ElementConditionType,
    pub tag: String,
}

impl ElementCondition {
    /// The condition as a pair of plain values.
    pub open spec fn view(&self) -> (ElementConditionType, Seq<char>) {
        (self.ctype, self.tag@)
    }
}

/// The condition a single non-empty atom denotes.
pub open spec fn cond_of_word(w: Seq<char>) -> (ElementConditionType, Seq<char>)
    recommends
        w.len() > 0,
{
    if w[0] == '+' {
        (ElementConditionType::Required, w.subrange(1, w.len() as int))
    } else if w[0] == '-' {
        (ElementConditionType::Prohibited, w.subrange(1, w.len() as int))
    } else {
        (ElementConditionType::Present, w)
    }
}

/// The conditions a list of atoms denotes; empty atoms contribute nothing.
pub open spec fn conds_of_words(ws: Seq<Seq<char>>) -> Seq<(ElementConditionType, Seq<char>)>
    decreases ws.len(),
{
    if ws.len() == 0 {
        Seq::empty()
    } else {
        let rest = conds_of_words(ws.drop_last());
        if ws.last().len() == 0 {
            rest
        } else {
            rest.push(cond_of_word(ws.last()))
        }
    }
}

/// A tag set satisfies a condition list iff every required or bare tag is
/// in the set and no prohibited tag is.
pub open spec fn condition_matches(
    conds: Seq<(ElementConditionType, Seq<char>)>,
    tags: Seq<Seq<char>>,
) -> bool {
    forall|i: int|
        0 <= i < conds.len() ==> match (#[trigger] conds[i]).0 {
            ElementConditionType::Required => tags.contains(conds[i].1),
            ElementConditionType::Present => tags.contains(conds[i].1),
            ElementConditionType::Prohibited => !tags.contains(conds[i].1),
        }
}

/// Whether one of the tags reads exactly as the given text.
pub fn tags_contain(tags: &Vec<String>, tag: &String) -> (b: bool)
    ensures
        b == tags.deep_view().contains(tag@),
{
    let ghost views = tags.deep_view();
    let mut j: usize = 0;
    while j < tags.len()
        invariant
            j <= tags@.len(),
            views == tags.deep_view(),
            forall|k: int| 0 <= k < j ==> views[k] != tag@,
        decreases tags@.len() - j,
    {
        assert(views[j as int] == tags@[j as int]@);
        if tags[j].eq(tag) {
            assert(views.contains(tag@));
            return true;
        }
        j = j + 1;
    }
    assert(forall|k: int| 0 <= k < views.len() ==> views[k] != tag@);
    false
}

impl ElementCondition {
    /// Parse a list of atoms into conditions, dropping empty atoms.
    pub fn parse(words: &Vec<String>) -> (r: Vec<ElementCondition>)
        ensures
            r@.map_values(|c: ElementCondition| c@) == conds_of_words(words.deep_view()),
    {
        let ghost wviews = words.deep_view();
        let mut out: Vec<ElementCondition> = Vec::new();
        let mut i: usize = 0;
        while i < words.len()
            invariant
                i <= words@.len(),
                wviews == words.deep_view(),
                out@.map_values(|c: ElementCondition| c@) == conds_of_words(
                    wviews.subrange(0, i as int),
                ),
            decreases words@.len() - i,
        {
            let ghost prefix = wviews.subrange(0, i as int);
            let ghost prefix1 = wviews.subrange(0, i + 1);
            proof {
                assert(prefix1.drop_last() =~= prefix);
                assert(prefix1.last() == wviews[i as int]);
                assert(wviews[i as int] == words@[i as int]@);
            }
            let w = &words[i];
            let n = w.as_str().unicode_len();
            if n > 0 {
                let first = w.as_str().get_char(0);
                let cond = if first == '+' {
                    ElementCondition {
                        ctype: ElementConditionType::Required,
                        tag: w.as_str().substring_char(1, n).to_owned(),
                    }
                } else if first == '-' {
                    ElementCondition {
                        ctype: ElementConditionType::Prohibited,
                        tag: w.as_str().substring_char(1, n).to_owned(),
                    }
                } else {
                    ElementCondition { ctype: ElementConditionType::Present, tag: w.clone() }
                };
                out.push(cond);
                proof {
                    assert(out@.map_values(|c: ElementCondition| c@) =~= conds_of_words(prefix1));
                }
            } else {
                proof {
                    assert(out@.map_values(|c: ElementCondition| c@) =~= conds_of_words(prefix1));
                }
            }
            i = i + 1;
        }
        proof {
            assert(wviews.subrange(0, wviews.len() as int) =~= wviews);
        }
        out
    }

    /// Whether the tag set satisfies every condition in the list.
    pub fn check(conditions: &Vec<ElementCondition>, tags: &Vec<String>) -> (b: bool)
        ensures
            b == condition_matches(
                conditions@.map_values(|c: ElementCondition| c@),
                tags.deep_view(),
            ),
    {
        let ghost cviews = conditions@.map_values(|c: ElementCondition| c@);
        let mut i: usize = 0;
        while i < conditions.len()
            invariant
                i <= conditions@.len(),
                cviews == conditions@.map_values(|c: ElementCondition| c@),
                forall|k: int|
                    0 <= k < i ==> match (#[trigger] cviews[k]).0 {
                        ElementConditionType::Required => tags.deep_view().contains(cviews[k].1),
                        ElementConditionType::Present => tags.deep_view().contains(cviews[k].1),
                        ElementConditionType::Prohibited => !tags.deep_view().contains(
                            cviews[k].1,
                        ),
                    },
            decreases conditions@.len() - i,
        {
            let c = &conditions[i];
            assert(cviews[i as int] == c@);
            let present = tags_contain(tags, &c.tag);
            let ok = match c.ctype {
                ElementConditionType::Required => present,
                ElementConditionType::Present => present,
                ElementConditionType::Prohibited => !present,
            };
            if !ok {
                return false;
            }
            i = i + 1;
        }
        true
    }
}

} // verus!
