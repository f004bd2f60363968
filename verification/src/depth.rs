//! The depth builder: converts a flat sequence of `(depth, title)` pairs
//! into a nested list by monotonic promotion and demotion.
//!
//! A stack of open lists is kept, one per level, levels consecutive from
//! the root. For each input pair the stack is popped down or grown up to
//! the pair's depth — missing intermediate levels are materialised as
//! empty-parented lists — and the payload appended to the top list.
//! Promotion never drops an item: flattening the result yields the input
//! payloads in their original order.

use vstd::prelude::*;
use vstd::pervasive::VecAdditionalExecFns;

verus! {

/// A node of the nested list: a sublist one level deeper, or one payload.
#[derive(Debug, PartialEq)]
pub enum DepthItem {
    List(Vec<DepthItem>),
    Item(String),
}

/// The payloads under one node, in depth-first order.
pub open spec fn flatten_item(it: DepthItem) -> Seq<Seq<char>>
    decreases it,
{
    match it {
        DepthItem::Item(s) => seq![s@],
        DepthItem::List(children) => flatten_items(children@),
    }
}

/// The payloads under a list of nodes, in depth-first order.
pub open spec fn flatten_items(items: Seq<DepthItem>) -> Seq<Seq<char>>
    decreases items,
{
    if items.len() == 0 {
        Seq::empty()
    } else {
        flatten_item(items[0]) + flatten_items(items.drop_first())
    }
}

/// The larger of two sizes.
pub open spec fn nat_max(a: nat, b: nat) -> nat {
    if a >= b {
        a
    } else {
        b
    }
}

/// The payloads under one node, each paired with its nesting level.
pub open spec fn flatten_item_depth(it: DepthItem, depth: nat) -> Seq<(Seq<char>, nat)>
    decreases it,
{
    match it {
        DepthItem::Item(s) => seq![(s@, depth)],
        DepthItem::List(children) => flatten_items_depth(children@, (depth + 1) as nat),
    }
}

/// The payloads under a list of nodes, each paired with its nesting depth.
pub open spec fn flatten_items_depth(items: Seq<DepthItem>, depth: nat) -> Seq<(Seq<char>, nat)>
    decreases items,
{
    if items.len() == 0 {
        Seq::empty()
    } else {
        flatten_item_depth(items[0], depth) + flatten_items_depth(items.drop_first(), depth)
    }
}

/// Flattening with depths carries the same titles, in the same order, as
/// flattening without.
pub proof fn lemma_flatten_depth_titles(items: Seq<DepthItem>, depth: nat)
    ensures
        flatten_items_depth(items, depth).map_values(|p: (Seq<char>, nat)| p.0) == flatten_items(
            items,
        ),
    decreases items, 1nat,
{
    if items.len() == 0 {
        assert(flatten_items_depth(items, depth).map_values(|p: (Seq<char>, nat)| p.0)
            =~= flatten_items(items));
    } else {
        lemma_flatten_item_depth_titles(items[0], depth);
        lemma_flatten_depth_titles(items.drop_first(), depth);
        assert(flatten_items_depth(items, depth).map_values(|p: (Seq<char>, nat)| p.0)
            =~= flatten_item_depth(items[0], depth).map_values(|p: (Seq<char>, nat)| p.0)
            + flatten_items_depth(items.drop_first(), depth).map_values(
            |p: (Seq<char>, nat)| p.0,
        ));
    }
}

/// The single-node case of the statement above.
pub proof fn lemma_flatten_item_depth_titles(it: DepthItem, depth: nat)
    ensures
        flatten_item_depth(it, depth).map_values(|p: (Seq<char>, nat)| p.0) == flatten_item(it),
    decreases it, 0nat,
{
    match it {
        DepthItem::Item(s) => {
            assert(flatten_item_depth(it, depth).map_values(|p: (Seq<char>, nat)| p.0)
                =~= flatten_item(it));
        },
        DepthItem::List(children) => {
            lemma_flatten_depth_titles(children@, (depth + 1) as nat);
        },
    }
}

/// Appending one node on the right extends the flattening on the right.
pub proof fn lemma_flatten_items_push(items: Seq<DepthItem>, it: DepthItem)
    ensures
        flatten_items(items.push(it)) == flatten_items(items) + flatten_item(it),
    decreases items.len(),
{
    if items.len() == 0 {
        assert(items.push(it).drop_first() =~= Seq::<DepthItem>::empty());
        assert(items.push(it)[0] == it);
        assert(flatten_items(items.push(it)) == flatten_item(it) + flatten_items(
            Seq::<DepthItem>::empty(),
        ));
        assert(flatten_items(items.push(it)) =~= flatten_items(items) + flatten_item(it));
    } else {
        assert(items.push(it).drop_first() =~= items.drop_first().push(it));
        assert(items.push(it)[0] == items[0]);
        lemma_flatten_items_push(items.drop_first(), it);
        assert(flatten_item(items[0]) + (flatten_items(items.drop_first()) + flatten_item(it))
            =~= (flatten_item(items[0]) + flatten_items(items.drop_first())) + flatten_item(it));
        assert(flatten_items(items.push(it)) =~= flatten_items(items) + flatten_item(it));
    }
}

/// Splitting a list splits its depth-flattening at the same point.
pub proof fn lemma_flatten_items_depth_concat(a: Seq<DepthItem>, b: Seq<DepthItem>, depth: nat)
    ensures
        flatten_items_depth(a + b, depth) == flatten_items_depth(a, depth) + flatten_items_depth(
            b,
            depth,
        ),
    decreases a.len(),
{
    if a.len() == 0 {
        assert(a + b =~= b);
        assert(flatten_items_depth(a, depth) =~= Seq::<(Seq<char>, nat)>::empty());
        assert(flatten_items_depth(a, depth) + flatten_items_depth(b, depth)
            =~= flatten_items_depth(b, depth));
    } else {
        assert((a + b)[0] == a[0]);
        assert((a + b).drop_first() =~= a.drop_first() + b);
        lemma_flatten_items_depth_concat(a.drop_first(), b, depth);
        assert(flatten_item_depth(a[0], depth) + (flatten_items_depth(a.drop_first(), depth)
            + flatten_items_depth(b, depth)) =~= (flatten_item_depth(a[0], depth)
            + flatten_items_depth(a.drop_first(), depth)) + flatten_items_depth(b, depth));
        assert(flatten_items_depth(a + b, depth) =~= flatten_items_depth(a, depth)
            + flatten_items_depth(b, depth));
    }
}

/// The payloads of the input pairs, in order.
pub open spec fn payload_titles(depths: Seq<(usize, String)>) -> Seq<Seq<char>> {
    depths.map_values(|p: (usize, String)| p.1@)
}

/// The payloads of the input pairs with their depths, in order.
pub open spec fn payload_pairs(depths: Seq<(usize, String)>) -> Seq<(Seq<char>, nat)> {
    depths.map_values(|p: (usize, String)| (p.1@, p.0 as nat))
}

/// The largest depth among the input pairs; zero for none.
pub open spec fn spec_max_depth(depths: Seq<(usize, String)>) -> nat
    decreases depths.len(),
{
    if depths.len() == 0 {
        0
    } else {
        nat_max(spec_max_depth(depths.drop_last()), depths.last().0 as nat)
    }
}

/// No input depth exceeds what a machine word holds.
pub proof fn lemma_spec_max_depth_bound(depths: Seq<(usize, String)>)
    ensures
        spec_max_depth(depths) <= usize::MAX,
    decreases depths.len(),
{
    if depths.len() > 0 {
        lemma_spec_max_depth_bound(depths.drop_last());
    }
}

/// How many lists nest below one node: none under a payload.
pub open spec fn height_item(it: DepthItem) -> nat
    decreases it,
{
    match it {
        DepthItem::Item(s) => 0,
        DepthItem::List(children) => 1 + height_items(children@),
    }
}

/// The deepest nesting under a list of nodes.
pub open spec fn height_items(items: Seq<DepthItem>) -> nat
    decreases items,
{
    if items.len() == 0 {
        0
    } else {
        nat_max(height_item(items[0]), height_items(items.drop_first()))
    }
}

/// Appending one node can only raise the nesting to that node's own.
pub proof fn lemma_height_items_push(items: Seq<DepthItem>, it: DepthItem)
    ensures
        height_items(items.push(it)) == nat_max(height_items(items), height_item(it)),
    decreases items.len(),
{
    if items.len() == 0 {
        assert(items.push(it).drop_first() =~= Seq::<DepthItem>::empty());
        assert(items.push(it)[0] == it);
        assert(height_items(Seq::<DepthItem>::empty()) == 0);
    } else {
        assert(items.push(it).drop_first() =~= items.drop_first().push(it));
        assert(items.push(it)[0] == items[0]);
        lemma_height_items_push(items.drop_first(), it);
    }
}

/// Every node nests no deeper than its list.
pub proof fn lemma_height_items_index(items: Seq<DepthItem>, i: int)
    requires
        0 <= i < items.len(),
    ensures
        height_item(items[i]) <= height_items(items),
    decreases items.len(),
{
    if i > 0 {
        assert(items.drop_first()[i - 1] == items[i]);
        lemma_height_items_index(items.drop_first(), i - 1);
    }
}

/// Appending one node on the right extends the depth-flattening too.
pub proof fn lemma_flatten_items_depth_push(items: Seq<DepthItem>, it: DepthItem, depth: nat)
    ensures
        flatten_items_depth(items.push(it), depth) == flatten_items_depth(items, depth)
            + flatten_item_depth(it, depth),
{
    lemma_flatten_items_depth_concat(items, seq![it], depth);
    assert(items.push(it) =~= items + seq![it]);
    assert(seq![it].drop_first() =~= Seq::<DepthItem>::empty());
    assert(flatten_items_depth(Seq::<DepthItem>::empty(), depth) =~= Seq::<(
        Seq<char>,
        nat,
    )>::empty());
    assert(seq![it][0] == it);
    assert(flatten_items_depth(seq![it], depth) =~= flatten_item_depth(it, depth));
}

/// The payloads held by a stack of open lists, outermost first.
pub open spec fn flatten_stack(stack: Seq<Vec<DepthItem>>) -> Seq<Seq<char>>
    decreases stack.len(),
{
    if stack.len() == 0 {
        Seq::empty()
    } else {
        flatten_stack(stack.drop_last()) + flatten_items(stack.last()@)
    }
}

/// The payloads held by a stack of open lists, outermost first, each
/// paired with the level of the list holding it.
pub open spec fn flatten_stack_depth(stack: Seq<Vec<DepthItem>>) -> Seq<(Seq<char>, nat)>
    decreases stack.len(),
{
    if stack.len() == 0 {
        Seq::empty()
    } else {
        flatten_stack_depth(stack.drop_last()) + flatten_items_depth(
            stack.last()@,
            (stack.len() - 1) as nat,
        )
    }
}

/// Close the top list and append it, as one node, to the list below it.
fn fold_level(stack: &mut Vec<Vec<DepthItem>>)
    requires
        old(stack)@.len() >= 2,
    ensures
        final(stack)@.len() == old(stack)@.len() - 1,
        flatten_stack(final(stack)@) == flatten_stack(old(stack)@),
        flatten_stack_depth(final(stack)@) == flatten_stack_depth(old(stack)@),
        final(stack)@.drop_last() == old(stack)@.drop_last().drop_last(),
        height_items(final(stack)@.last()@) == nat_max(
            height_items(old(stack)@[old(stack)@.len() - 2]@),
            1 + height_items(old(stack)@.last()@),
        ),
{
    let inner = match stack.pop() {
        Some(l) => l,
        None => Vec::new(),
    };
    let mut parent = match stack.pop() {
        Some(l) => l,
        None => Vec::new(),
    };
    let ghost parent0 = parent@;
    parent.push(DepthItem::List(inner));
    stack.push(parent);
    proof {
        lemma_flatten_items_push(parent0, DepthItem::List(inner));
        assert(stack@.drop_last() =~= old(stack)@.drop_last().drop_last());
        assert(flatten_stack(old(stack)@.drop_last()) == flatten_stack(
            old(stack)@.drop_last().drop_last(),
        ) + flatten_items(parent0));
        assert(flatten_stack(stack@) =~= flatten_stack(old(stack)@));
        // The folded list drops one level, keeping the levels aligned.
        let parent_level = (old(stack)@.len() - 2) as nat;
        let inner_level = (old(stack)@.len() - 1) as nat;
        lemma_flatten_items_depth_push(parent0, DepthItem::List(inner), parent_level);
        assert(flatten_item_depth(DepthItem::List(inner), parent_level) == flatten_items_depth(
            inner@,
            inner_level,
        ));
        assert(flatten_stack_depth(old(stack)@.drop_last()) == flatten_stack_depth(
            old(stack)@.drop_last().drop_last(),
        ) + flatten_items_depth(parent0, parent_level));
        assert(flatten_stack_depth(stack@) =~= flatten_stack_depth(old(stack)@));
        lemma_height_items_push(parent0, DepthItem::List(inner));
        assert(height_item(DepthItem::List(inner)) == 1 + height_items(inner@));
    }
}

/// Build the nested list from flat `(depth, title)` pairs. Flattening the
/// result yields exactly the input titles, in their original order: no
/// payload is dropped or duplicated, however the depths jump.
pub fn process_depths(depths: &Vec<(usize, String)>) -> (r: Vec<DepthItem>)
    ensures
        flatten_items(r@) == payload_titles(depths@),
        flatten_items_depth(r@, 0) == payload_pairs(depths@),
        height_items(r@) <= spec_max_depth(depths@) + 1,
{
    let mut stack: Vec<Vec<DepthItem>> = Vec::new();
    stack.push(Vec::new());
    let mut i: usize = 0;
    proof {
        assert(stack@.drop_last() =~= Seq::<Vec<DepthItem>>::empty());
        assert(flatten_items(stack@.last()@) =~= Seq::<Seq<char>>::empty());
        assert(flatten_stack(Seq::<Vec<DepthItem>>::empty()) =~= Seq::<Seq<char>>::empty());
        assert(payload_titles(depths@.subrange(0, 0)) =~= Seq::<Seq<char>>::empty());
        assert(flatten_stack(stack@) =~= payload_titles(depths@.subrange(0, 0)));
        assert(flatten_items_depth(stack@.last()@, 0) =~= Seq::<(Seq<char>, nat)>::empty());
        assert(flatten_stack_depth(Seq::<Vec<DepthItem>>::empty()) =~= Seq::<(
            Seq<char>,
            nat,
        )>::empty());
        assert(payload_pairs(depths@.subrange(0, 0)) =~= Seq::<(Seq<char>, nat)>::empty());
        assert(flatten_stack_depth(stack@) =~= payload_pairs(depths@.subrange(0, 0)));
    }
    while i < depths.len()
        invariant
            i <= depths@.len(),
            stack@.len() >= 1,
            flatten_stack(stack@) == payload_titles(depths@.subrange(0, i as int)),
            flatten_stack_depth(stack@) == payload_pairs(depths@.subrange(0, i as int)),
            forall|l: int|
                0 <= l < stack@.len() ==> l + height_items(#[trigger] stack@[l]@)
                    <= spec_max_depth(depths@.subrange(0, i as int)) + 1,
        decreases depths@.len() - i,
    {
        let target = depths[i].0;
        let ghost bound = nat_max(
            spec_max_depth(depths@.subrange(0, i as int)),
            depths@[i as int].0 as nat,
        ) + 1;
        proof {
            assert(depths@.subrange(0, i + 1).drop_last() =~= depths@.subrange(0, i as int));
            assert(depths@.subrange(0, i + 1).last() == depths@[i as int]);
            assert(spec_max_depth(depths@.subrange(0, i + 1)) + 1 == bound);
        }
        let title = depths[i].1.clone();
        assert(depths@[i as int].1@ == title@);
        // Pop levels deeper than the target depth.
        while stack.len() > 1 && stack.len() - 1 > target
            invariant
                i < depths@.len(),
                stack@.len() >= 1,
                flatten_stack(stack@) == payload_titles(depths@.subrange(0, i as int)),
                flatten_stack_depth(stack@) == payload_pairs(depths@.subrange(0, i as int)),
                bound == nat_max(
                    spec_max_depth(depths@.subrange(0, i as int)),
                    depths@[i as int].0 as nat,
                ) + 1,
                forall|l: int|
                    0 <= l < stack@.len() ==> l + height_items(#[trigger] stack@[l]@) <= bound,
            decreases stack@.len(),
        {
            let ghost pre = stack@;
            fold_level(&mut stack);
            proof {
                assert forall|l: int|
                    0 <= l < stack@.len() implies l + height_items(#[trigger] stack@[l]@)
                    <= bound by {
                    if l < stack@.len() - 1 {
                        assert(stack@.drop_last()[l] == pre.drop_last().drop_last()[l]);
                        assert(stack@[l] == pre[l]);
                    } else {
                        assert(stack@[l] == stack@.last());
                        assert((pre.len() - 2) + height_items(pre[pre.len() - 2]@) <= bound);
                        assert((pre.len() - 1) + height_items(pre[pre.len() - 1]@) <= bound);
                        assert(pre.last() == pre[pre.len() - 1]);
                    }
                }
            }
        }
        // Materialise missing levels up to the target depth.
        while stack.len() - 1 < target
            invariant
                i < depths@.len(),
                stack@.len() >= 1,
                stack@.len() <= target + 1,
                target == depths@[i as int].0,
                flatten_stack(stack@) == payload_titles(depths@.subrange(0, i as int)),
                flatten_stack_depth(stack@) == payload_pairs(depths@.subrange(0, i as int)),
                bound == nat_max(
                    spec_max_depth(depths@.subrange(0, i as int)),
                    depths@[i as int].0 as nat,
                ) + 1,
                forall|l: int|
                    0 <= l < stack@.len() ==> l + height_items(#[trigger] stack@[l]@) <= bound,
            decreases target - (stack@.len() - 1),
        {
            let ghost grown = stack@;
            stack.push(Vec::new());
            proof {
                assert(flatten_items(stack@.last()@) =~= Seq::<Seq<char>>::empty());
                assert(stack@.drop_last() =~= grown);
                assert(flatten_stack(stack@) =~= payload_titles(depths@.subrange(0, i as int)));
                assert(flatten_items_depth(stack@.last()@, (stack@.len() - 1) as nat)
                    =~= Seq::<(Seq<char>, nat)>::empty());
                assert(flatten_stack_depth(stack@) =~= payload_pairs(
                    depths@.subrange(0, i as int),
                ));
                assert(height_items(stack@.last()@) == 0);
                assert forall|l: int|
                    0 <= l < stack@.len() implies l + height_items(#[trigger] stack@[l]@)
                    <= bound by {
                    if l < stack@.len() - 1 {
                        assert(stack@[l] == grown[l]);
                    }
                }
            }
        }
        // Append the payload to the top list.
        let mut top = match stack.pop() {
            Some(l) => l,
            None => Vec::new(),
        };
        let ghost top0 = top@;
        let ghost stack0 = stack@;
        top.push(DepthItem::Item(title));
        stack.push(top);
        proof {
            lemma_flatten_items_push(top0, DepthItem::Item(title));
            assert(stack@.drop_last() =~= stack0);
            assert(payload_titles(depths@.subrange(0, i + 1)) =~= payload_titles(
                depths@.subrange(0, i as int),
            ) + seq![depths@[i as int].1@]);
            assert(flatten_stack(stack@) =~= payload_titles(depths@.subrange(0, i + 1)));
            // The item lands at the target level.
            let level = (stack@.len() - 1) as nat;
            assert(stack@.len() - 1 == target);
            lemma_flatten_items_depth_push(top0, DepthItem::Item(title), level);
            assert(flatten_item_depth(DepthItem::Item(title), level) =~= seq![(title@, level)]);
            assert(payload_pairs(depths@.subrange(0, i + 1)) =~= payload_pairs(
                depths@.subrange(0, i as int),
            ) + seq![(depths@[i as int].1@, depths@[i as int].0 as nat)]);
            assert(flatten_stack_depth(stack@) =~= payload_pairs(depths@.subrange(0, i + 1)));
            lemma_height_items_push(top0, DepthItem::Item(title));
            assert(height_item(DepthItem::Item(title)) == 0);
            assert(height_items(stack@.last()@) == height_items(top0));
            assert forall|l: int|
                0 <= l < stack@.len() implies l + height_items(#[trigger] stack@[l]@)
                <= spec_max_depth(depths@.subrange(0, i + 1)) + 1 by {
                if l < stack@.len() - 1 {
                    assert(stack@[l] == stack0[l]);
                }
            }
        }
        i = i + 1;
    }
    // Close every open level down to the root.
    while stack.len() > 1
        invariant
            stack@.len() >= 1,
            flatten_stack(stack@) == payload_titles(depths@.subrange(0, depths@.len() as int)),
            flatten_stack_depth(stack@) == payload_pairs(
                depths@.subrange(0, depths@.len() as int),
            ),
            forall|l: int|
                0 <= l < stack@.len() ==> l + height_items(#[trigger] stack@[l]@)
                    <= spec_max_depth(depths@.subrange(0, depths@.len() as int)) + 1,
        decreases stack@.len(),
    {
        let ghost pre = stack@;
        fold_level(&mut stack);
        proof {
            assert forall|l: int|
                0 <= l < stack@.len() implies l + height_items(#[trigger] stack@[l]@)
                <= spec_max_depth(depths@.subrange(0, depths@.len() as int)) + 1 by {
                if l < stack@.len() - 1 {
                    assert(stack@.drop_last()[l] == pre.drop_last().drop_last()[l]);
                    assert(stack@[l] == pre[l]);
                } else {
                    assert(stack@[l] == stack@.last());
                    assert((pre.len() - 2) + height_items(pre[pre.len() - 2]@)
                        <= spec_max_depth(depths@.subrange(0, depths@.len() as int)) + 1);
                    assert((pre.len() - 1) + height_items(pre[pre.len() - 1]@)
                        <= spec_max_depth(depths@.subrange(0, depths@.len() as int)) + 1);
                    assert(pre.last() == pre[pre.len() - 1]);
                }
            }
        }
    }
    let ghost closed = stack@;
    let root = match stack.pop() {
        Some(l) => l,
        None => Vec::new(),
    };
    proof {
        assert(depths@.subrange(0, depths@.len() as int) =~= depths@);
        assert(closed.drop_last() =~= Seq::<Vec<DepthItem>>::empty());
        assert(root == closed.last());
        assert(flatten_stack(closed) == flatten_stack(Seq::<Vec<DepthItem>>::empty())
            + flatten_items(root@));
        assert(Seq::<Seq<char>>::empty() + flatten_items(root@) =~= flatten_items(root@));
        assert(flatten_stack_depth(closed) == flatten_stack_depth(
            Seq::<Vec<DepthItem>>::empty(),
        ) + flatten_items_depth(root@, 0));
        assert(Seq::<(Seq<char>, nat)>::empty() + flatten_items_depth(root@, 0)
            =~= flatten_items_depth(root@, 0));
        assert(height_items(root@) <= spec_max_depth(depths@) + 1);
    }
    root
}

} // verus!
