//! Table-of-contents element construction.
//!
//! The nested list built by the depth builder is walked with a monotonic
//! counter. Each payload becomes a `Div` holding a link whose anchor is
//! `#toc` followed by the counter's next value, indented two ems per
//! nesting level; the whole walk is wrapped in a `Fragment`. Anchor
//! indices therefore run `toc0, toc1, …` in depth-first payload order.

use vstd::prelude::*;
use vstd::string::StringExecFns;
use vstd::pervasive::VecAdditionalExecFns;
use crate::depth::{
    height_item, height_items, lemma_height_items_index, DepthItem, flatten_item_depth,
    flatten_items_depth,
    lemma_flatten_items_depth_concat,
};
use crate::tree::{Attribute, ContainerType, Element, LinkType};

verus! {

/// The decimal digit character for one value below ten.
pub open spec fn dec_digit(d: nat) -> char {
    if d == 0 {
        '0'
    } else if d == 1 {
        '1'
    } else if d == 2 {
        '2'
    } else if d == 3 {
        '3'
    } else if d == 4 {
        '4'
    } else if d == 5 {
        '5'
    } else if d == 6 {
        '6'
    } else if d == 7 {
        '7'
    } else if d == 8 {
        '8'
    } else {
        '9'
    }
}

/// The decimal representation of a number, most significant digit first.
pub open spec fn dec_rep(n: nat) -> Seq<char>
    decreases n,
{
    if n < 10 {
        seq![dec_digit(n)]
    } else {
        dec_rep(n / 10).push(dec_digit(n % 10))
    }
}

/// The single-character string for one decimal digit.
fn digit_str(d: u64) -> (r: &'static str)
    requires
        d < 10,
    ensures
        r@ == seq![dec_digit(d as nat)],
{
    let r: &'static str = if d == 0 {
        "0"
    } else if d == 1 {
        "1"
    } else if d == 2 {
        "2"
    } else if d == 3 {
        "3"
    } else if d == 4 {
        "4"
    } else if d == 5 {
        "5"
    } else if d == 6 {
        "6"
    } else if d == 7 {
        "7"
    } else if d == 8 {
        "8"
    } else {
        "9"
    };
    proof {
        reveal_strlit("0");
        reveal_strlit("1");
        reveal_strlit("2");
        reveal_strlit("3");
        reveal_strlit("4");
        reveal_strlit("5");
        reveal_strlit("6");
        reveal_strlit("7");
        reveal_strlit("8");
        reveal_strlit("9");
        assert(r@ =~= seq![dec_digit(d as nat)]);
    }
    r
}

/// The number in decimal.
pub fn dec_string(n: u64) -> (r: String)
    ensures
        r@ == dec_rep(n as nat),
    decreases n,
{
    if n < 10 {
        let r = digit_str(n).to_owned();
        proof {
            assert(r@ =~= dec_rep(n as nat));
        }
        r
    } else {
        let mut s = dec_string(n / 10);
        s.append(digit_str(n % 10));
        proof {
            assert(s@ =~= dec_rep(n as nat));
        }
        s
    }
}

/// The number in decimal, for values wider than a machine word.
pub fn dec_string_wide(n: u128) -> (r: String)
    ensures
        r@ == dec_rep(n as nat),
    decreases n,
{
    if n < 10 {
        let r = digit_str((n % 10) as u64).to_owned();
        proof {
            assert(r@ =~= dec_rep(n as nat));
        }
        r
    } else {
        let mut s = dec_string_wide(n / 10);
        s.append(digit_str((n % 10) as u64));
        proof {
            assert(s@ =~= dec_rep(n as nat));
        }
        s
    }
}

/// The anchor a table-of-contents entry points at: `#toc` and the index.
pub open spec fn toc_anchor(index: nat) -> Seq<char> {
    "#toc"@ + dec_rep(index)
}

/// The inline style carrying an entry's indentation, two ems per level.
pub open spec fn margin_style(depth: nat) -> Seq<char> {
    "margin-left: "@ + dec_rep(2 * depth) + "em"@
}

fn toc_anchor_string(index: u64) -> (r: String)
    ensures
        r@ == toc_anchor(index as nat),
{
    let mut s = "#toc".to_owned();
    let digits = dec_string(index);
    s.append(digits.as_str());
    s
}

fn margin_style_string(depth: u128) -> (r: String)
    requires
        depth <= u128::MAX / 2,
    ensures
        r@ == margin_style(depth as nat),
{
    let mut s = "margin-left: ".to_owned();
    let digits = dec_string_wide(2 * depth);
    s.append(digits.as_str());
    s.append("em");
    proof {
        assert(s@ =~= margin_style(depth as nat));
    }
    s
}

/// The monotonic counter producing table-of-contents anchor indices.
#[derive(Debug)]
pub struct Incrementer(pub usize);

impl Incrementer {
    /// The next index; each call returns one more than the last.
    pub fn next(&mut self) -> (r: usize)
        requires
            old(self).0 < usize::MAX,
        ensures
            r == old(self).0,
            final(self).0 == old(self).0 + 1,
    {
        let index = self.0;
        self.0 = self.0 + 1;
        index
    }
}

/// One rendered table-of-contents entry: a `Div`, indented two ems per
/// level, holding a single link to `#toc` with the entry's index, labelled
/// by the entry's title.
pub open spec fn is_toc_entry(e: Element, title: Seq<char>, depth: nat, index: nat) -> bool {
    match e {
        Element::Container(ct, children, attrs) => {
            &&& ct == ContainerType::Div
            &&& children@.len() == 1
            &&& match children@[0] {
                Element::Link(lt, url, label, target) => lt == LinkType::TableOfContents && url@
                    == toc_anchor(index) && label@ == title && target is None,
                _ => false,
            }
            &&& attrs@.len() == 1
            &&& attrs@[0].key@ == "style"@
            &&& attrs@[0].value@ == margin_style(depth)
        },
        _ => false,
    }
}

/// Walk one nested list: one `Div` per payload, in depth-first order,
/// with consecutive anchor indices continuing the counter.
pub fn unwrap_toc_list(depth: u128, incr: &mut Incrementer, list: &Vec<DepthItem>) -> (r: Vec<
    Element,
>)
    requires
        depth + height_items(list@) <= u128::MAX / 2,
        old(incr).0 + flatten_items_depth(list@, depth as nat).len() <= usize::MAX,
    ensures
        r@.len() == flatten_items_depth(list@, depth as nat).len(),
        final(incr).0 == old(incr).0 + r@.len(),
        forall|k: int|
            0 <= k < r@.len() ==> is_toc_entry(
                #[trigger] r@[k],
                flatten_items_depth(list@, depth as nat)[k].0,
                flatten_items_depth(list@, depth as nat)[k].1,
                (old(incr).0 + k) as nat,
            ),
    decreases list,
{
    let ghost l0 = list@;
    let ghost d = depth as nat;
    let ghost start = incr.0 as int;
    let ghost pairs = flatten_items_depth(l0, d);
    let mut out: Vec<Element> = Vec::new();
    let mut i: usize = 0;
    proof {
        assert(l0.subrange(0, 0) =~= Seq::<DepthItem>::empty());
        assert(flatten_items_depth(l0.subrange(0, 0), d) =~= Seq::<(Seq<char>, nat)>::empty());
    }
    while i < list.len()
        invariant
            depth + height_items(l0) <= u128::MAX / 2,
            d == depth as nat,
            i <= l0.len(),
            list@ == l0,
            pairs == flatten_items_depth(l0, d),
            start + pairs.len() <= usize::MAX,
            out@.len() == flatten_items_depth(l0.subrange(0, i as int), d).len(),
            flatten_items_depth(l0.subrange(0, i as int), d).is_prefix_of(pairs),
            incr.0 == start + out@.len(),
            forall|k: int|
                0 <= k < out@.len() ==> is_toc_entry(
                    #[trigger] out@[k],
                    flatten_items_depth(l0.subrange(0, i as int), d)[k].0,
                    flatten_items_depth(l0.subrange(0, i as int), d)[k].1,
                    (start + k) as nat,
                ),
        decreases l0.len() - i,
    {
        let ghost done = flatten_items_depth(l0.subrange(0, i as int), d);
        proof {
            assert(l0.subrange(0, i + 1) =~= l0.subrange(0, i as int) + l0.subrange(
                i as int,
                i + 1,
            ));
            lemma_flatten_items_depth_concat(
                l0.subrange(0, i as int),
                l0.subrange(i as int, i + 1),
                d,
            );
            assert(l0.subrange(i as int, i + 1) =~= seq![l0[i as int]]);
            assert(seq![l0[i as int]].drop_first() =~= Seq::<DepthItem>::empty());
            assert(flatten_items_depth(Seq::<DepthItem>::empty(), d) =~= Seq::<(
                Seq<char>,
                nat,
            )>::empty());
            assert(seq![l0[i as int]][0] == l0[i as int]);
            assert(flatten_items_depth(seq![l0[i as int]], d) == flatten_item_depth(
                l0[i as int],
                d,
            ) + flatten_items_depth(Seq::<DepthItem>::empty(), d));
            assert(flatten_items_depth(seq![l0[i as int]], d) =~= flatten_item_depth(
                l0[i as int],
                d,
            ));
            assert(flatten_items_depth(l0.subrange(0, i + 1), d) =~= done + flatten_item_depth(
                l0[i as int],
                d,
            ));
            // The whole list splits at `i + 1`, so the prefix is bounded.
            assert(l0 =~= l0.subrange(0, i + 1) + l0.subrange(i + 1, l0.len() as int));
            lemma_flatten_items_depth_concat(
                l0.subrange(0, i + 1),
                l0.subrange(i + 1, l0.len() as int),
                d,
            );
            assert(flatten_items_depth(l0.subrange(0, i + 1), d).is_prefix_of(pairs));
        }
        let ghost out0 = out@;
        match &list[i] {
            DepthItem::Item(name) => {
                proof {
                    assert(flatten_item_depth(l0[i as int], d) =~= seq![(name@, d)]);
                }
                let index = incr.next();
                let anchor = toc_anchor_string(index as u64);
                let link = Element::Link(
                    LinkType::TableOfContents,
                    anchor,
                    name.clone(),
                    Option::None,
                );
                let mut children: Vec<Element> = Vec::new();
                children.push(link);
                let mut attrs: Vec<Attribute> = Vec::new();
                attrs.push(
                    Attribute { key: "style".to_owned(), value: margin_style_string(depth) },
                );
                proof {
                    reveal_strlit("style");
                }
                out.push(Element::Container(ContainerType::Div, children, attrs));
            },
            DepthItem::List(sub) => {
                proof {
                    broadcast use vstd::std_specs::vec::group_vec_axioms;
                    broadcast use vstd::seq::group_seq_axioms;

                    assert(l0[i as int] == DepthItem::List(*sub));
                    assert(decreases_to!(l0 => l0[i as int]));
                    assert(flatten_item_depth(l0[i as int], d) == flatten_items_depth(
                        sub@,
                        d + 1,
                    ));
                    assert(flatten_items_depth(l0.subrange(0, i + 1), d).len()
                        <= pairs.len());
                    assert(flatten_items_depth(l0.subrange(0, i + 1), d).len() == done.len()
                        + flatten_items_depth(sub@, d + 1).len());
                    // One level down still fits the machine word.
                    lemma_height_items_index(l0, i as int);
                    assert(height_item(l0[i as int]) == 1 + height_items(sub@));
                }
                let mut subs = unwrap_toc_list(depth + 1, incr, sub);
                out.append(&mut subs);
            },
        }
        proof {
            assert(out@.len() == flatten_items_depth(l0.subrange(0, i + 1), d).len());
            assert forall|k: int| 0 <= k < out@.len() implies is_toc_entry(
                #[trigger] out@[k],
                flatten_items_depth(l0.subrange(0, i + 1), d)[k].0,
                flatten_items_depth(l0.subrange(0, i + 1), d)[k].1,
                (start + k) as nat,
            ) by {
                if k < out0.len() {
                    assert(out@[k] == out0[k]);
                    assert(flatten_items_depth(l0.subrange(0, i + 1), d)[k] == done[k]);
                } else {
                    assert(flatten_items_depth(l0.subrange(0, i + 1), d)[k]
                        == flatten_item_depth(l0[i as int], d)[k - done.len()]);
                }
            }
        }
        i = i + 1;
    }
    proof {
        assert(l0.subrange(0, l0.len() as int) =~= l0);
    }
    out
}

/// Build the table-of-contents element for one nested list: the walk of
/// `unwrap_toc_list`, wrapped in a `Fragment`.
pub fn build_toc_list_element(incr: &mut Incrementer, list: Vec<DepthItem>) -> (r: Element)
    requires
        height_items(list@) <= u128::MAX / 2,
        old(incr).0 + flatten_items_depth(list@, 0).len() <= usize::MAX,
    ensures
        ({
            let pairs = flatten_items_depth(list@, 0);
            match r {
                Element::Fragment(items) => {
                    &&& items@.len() == pairs.len()
                    &&& final(incr).0 == old(incr).0 + pairs.len()
                    &&& forall|k: int|
                        0 <= k < items@.len() ==> is_toc_entry(
                            #[trigger] items@[k],
                            pairs[k].0,
                            pairs[k].1,
                            (old(incr).0 + k) as nat,
                        )
                },
                _ => false,
            }
        }),
{
    let items = unwrap_toc_list(0, incr, &list);
    Element::Fragment(items)
}

} // verus!
