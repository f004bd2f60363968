//! The depth builder and the table-of-contents element construction.

use ftml::depth::{process_depths, DepthItem};
use ftml::toc::{build_toc_list_element, dec_string, dec_string_wide, unwrap_toc_list, Incrementer};
use ftml::tree::{ContainerType, Element};

fn pairs(input: &[(usize, &str)]) -> Vec<(usize, String)> {
    input.iter().map(|(d, t)| (*d, (*t).to_owned())).collect()
}

fn item(s: &str) -> DepthItem {
    DepthItem::Item(s.to_owned())
}

#[test]
fn flat_list_stays_flat() {
    let r = process_depths(&pairs(&[(0, "a"), (0, "b"), (0, "c")]));
    assert_eq!(r, vec![item("a"), item("b"), item("c")]);
}

#[test]
fn nested_depths_promote_and_demote() {
    let r = process_depths(&pairs(&[(0, "a"), (2, "b"), (1, "c"), (0, "d")]));
    let expected = vec![
        item("a"),
        DepthItem::List(vec![DepthItem::List(vec![item("b")]), item("c")]),
        item("d"),
    ];
    assert_eq!(r, expected);
}

#[test]
fn skipped_levels_are_materialised() {
    let r = process_depths(&pairs(&[(2, "only")]));
    let expected = vec![DepthItem::List(vec![DepthItem::List(vec![item("only")])])];
    assert_eq!(r, expected);
}

fn flatten(items: &[DepthItem], out: &mut Vec<String>) {
    for it in items {
        match it {
            DepthItem::Item(s) => out.push(s.clone()),
            DepthItem::List(children) => flatten(children, out),
        }
    }
}

#[test]
fn depth_roundtrip_preserves_order_and_payloads() {
    let input = pairs(&[(1, "x"), (0, "y"), (3, "z"), (3, "w"), (2, "v")]);
    let tree = process_depths(&input);
    let mut titles = Vec::new();
    flatten(&tree, &mut titles);
    let expected: Vec<String> = input.iter().map(|(_, t)| t.clone()).collect();
    assert_eq!(titles, expected);
}

#[test]
fn incrementer_counts_from_its_start() {
    let mut incr = Incrementer(0);
    assert_eq!(incr.next(), 0);
    assert_eq!(incr.next(), 1);
    assert_eq!(incr.next(), 2);
    assert_eq!(incr.0, 3);
}

fn entry_parts(e: &Element) -> (String, String, String) {
    match e {
        Element::Container(ContainerType::Div, children, attrs) => match &children[0] {
            Element::Link(_, url, label, _) => {
                (url.clone(), label.clone(), attrs[0].value.clone())
            }
            other => panic!("expected link, got {other:?}"),
        },
        other => panic!("expected div, got {other:?}"),
    }
}

#[test]
fn toc_anchors_follow_depth_first_order() {
    let list = vec![
        item("Top"),
        DepthItem::List(vec![item("Sub"), DepthItem::List(vec![item("Deep")])]),
        item("Top2"),
    ];
    let mut incr = Incrementer(0);
    let fragment = build_toc_list_element(&mut incr, list);
    let items = match fragment {
        Element::Fragment(items) => items,
        other => panic!("expected fragment, got {other:?}"),
    };
    let got: Vec<(String, String, String)> = items.iter().map(entry_parts).collect();
    let expected = vec![
        ("#toc0".to_owned(), "Top".to_owned(), "margin-left: 0em".to_owned()),
        ("#toc1".to_owned(), "Sub".to_owned(), "margin-left: 2em".to_owned()),
        ("#toc2".to_owned(), "Deep".to_owned(), "margin-left: 4em".to_owned()),
        ("#toc3".to_owned(), "Top2".to_owned(), "margin-left: 0em".to_owned()),
    ];
    assert_eq!(got, expected);
    assert_eq!(incr.0, 4);
}

#[test]
fn toc_walk_continues_a_running_counter() {
    let mut incr = Incrementer(5);
    let elements = unwrap_toc_list(0, &mut incr, &vec![item("a"), item("b")]);
    let got: Vec<(String, String, String)> = elements.iter().map(entry_parts).collect();
    assert_eq!(got[0].0, "#toc5");
    assert_eq!(got[1].0, "#toc6");
    assert_eq!(incr.0, 7);
}

#[test]
fn decimal_rendering_is_exact() {
    assert_eq!(dec_string(0), "0");
    assert_eq!(dec_string(7), "7");
    assert_eq!(dec_string(10), "10");
    assert_eq!(dec_string(12345), "12345");
    assert_eq!(dec_string(u64::MAX), "18446744073709551615");
}

#[test]
fn indentation_grows_without_bound() {
    // An item one list below level 100 carries the true indentation.
    let mut node = DepthItem::Item("deep".to_owned());
    for _ in 0..101 {
        node = DepthItem::List(vec![node]);
    }
    let mut incr = Incrementer(0);
    let fragment = build_toc_list_element(&mut incr, vec![node]);
    let items = match fragment {
        Element::Fragment(items) => items,
        other => panic!("expected fragment, got {other:?}"),
    };
    let (_, _, margin) = entry_parts(&items[0]);
    assert_eq!(margin, "margin-left: 202em");
}

#[test]
fn wide_decimal_rendering_is_exact() {
    assert_eq!(dec_string_wide(0), "0");
    assert_eq!(dec_string_wide(u64::MAX as u128 + 1), "18446744073709551616");
    assert_eq!(
        dec_string_wide(u128::MAX),
        "340282366920938463463374607431768211455"
    );
}
