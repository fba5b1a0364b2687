//! Reconstruction of a layout tree from flat pane geometry.
//!
//! Panes that share a `top` form a band; several bands are stacked in a
//! column. Panes of one band that share a `left` form a stripe; several
//! stripes stand side by side in a row. The share of each child is its
//! extent in hundredths of the extent of the whole, rounded down.

use vstd::prelude::*;
use crate::types::session::{
    geometries_of, slots_of, lemma_children_view, LayoutEntry, LayoutNode, LayoutSlot, LayoutTree,
    PaneGeometry, TmuxPane,
};

verus! {

/// The direction in which panes are told apart: by their `top` edge (bands
/// stacked vertically) or by their `left` edge (stripes side by side).
#[derive(Clone, Copy, Debug, PartialEq, Eq, Structural)]
pub enum Axis {
    Top,
    Left,
}

/// The coordinate by which a pane is grouped along `axis`.
pub open spec fn key_of(pane: PaneGeometry, axis: Axis) -> nat {
    match axis {
        Axis::Top => pane.top,
        Axis::Left => pane.left,
    }
}

/// The size of a pane along `axis`: its height for `Top`, its width for `Left`.
pub open spec fn extent_of(pane: PaneGeometry, axis: Axis) -> nat {
    match axis {
        Axis::Top => pane.height,
        Axis::Left => pane.width,
    }
}

/// The agent of a pane, or the empty name where it has none.
pub open spec fn agent_or_empty(pane: PaneGeometry) -> Seq<char> {
    match pane.agent {
        Some(name) => name,
        None => Seq::empty(),
    }
}

/// The smallest key along `axis` among `panes`; 0 where there is no pane.
pub open spec fn near_edge(panes: Seq<PaneGeometry>, axis: Axis) -> nat
    decreases panes.len(),
{
    if panes.len() == 0 {
        0
    } else if panes.len() == 1 {
        key_of(panes[0], axis)
    } else {
        let rest = near_edge(panes.drop_last(), axis);
        let k = key_of(panes.last(), axis);
        if k < rest {
            k
        } else {
            rest
        }
    }
}

/// The largest key plus extent along `axis` among `panes`; 0 where there is
/// no pane.
pub open spec fn far_edge(panes: Seq<PaneGeometry>, axis: Axis) -> nat
    decreases panes.len(),
{
    if panes.len() == 0 {
        0
    } else {
        let rest = far_edge(panes.drop_last(), axis);
        let e = key_of(panes.last(), axis) + extent_of(panes.last(), axis);
        if e > rest {
            e
        } else {
            rest
        }
    }
}

/// The total extent of `panes` along `axis`: from the nearest edge to the
/// farthest.
pub open spec fn span_of(panes: Seq<PaneGeometry>, axis: Axis) -> nat {
    (far_edge(panes, axis) - near_edge(panes, axis)) as nat
}

/// The largest extent along `axis` among `panes`; 0 where there is no pane.
pub open spec fn thickness_of(panes: Seq<PaneGeometry>, axis: Axis) -> nat
    decreases panes.len(),
{
    if panes.len() == 0 {
        0
    } else {
        let rest = thickness_of(panes.drop_last(), axis);
        let e = extent_of(panes.last(), axis);
        if e > rest {
            e
        } else {
            rest
        }
    }
}

/// `part` in hundredths of `total`, rounded down; 0 where `total` is 0.
pub open spec fn percent_of(part: nat, total: nat) -> nat {
    if total > 0 {
        (part * 100) / total
    } else {
        0
    }
}

/// How many panes have a key above `floor`.
pub open spec fn count_above(panes: Seq<PaneGeometry>, axis: Axis, floor: int) -> nat
    decreases panes.len(),
{
    if panes.len() == 0 {
        0
    } else {
        let rest = count_above(panes.drop_last(), axis, floor);
        if key_of(panes.last(), axis) > floor {
            rest + 1
        } else {
            rest
        }
    }
}

/// The smallest key above `floor`, if any pane has one.
pub open spec fn least_above(panes: Seq<PaneGeometry>, axis: Axis, floor: int) -> Option<nat>
    decreases panes.len(),
{
    if panes.len() == 0 {
        None
    } else {
        let rest = least_above(panes.drop_last(), axis, floor);
        let k = key_of(panes.last(), axis);
        if k > floor && (rest is None || k < rest->0) {
            Some(k)
        } else {
            rest
        }
    }
}

/// The distinct keys above `floor` in ascending order: the least of them,
/// then the least above that one, and so on.
pub open spec fn keys_from(panes: Seq<PaneGeometry>, axis: Axis, floor: int) -> Seq<nat>
    decreases count_above(panes, axis, floor),
{
    match least_above(panes, axis, floor) {
        None => Seq::empty(),
        Some(k) => {
            proof {
                lemma_least_above(panes, axis, floor);
            }
            seq![k] + keys_from(panes, axis, k as int)
        },
    }
}

/// The distinct keys of `panes` along `axis`, in ascending order.
pub open spec fn ascending_keys(panes: Seq<PaneGeometry>, axis: Axis) -> Seq<nat> {
    keys_from(panes, axis, -1)
}

/// The panes whose key along `axis` is `key`, in the order given.
pub open spec fn keyed(panes: Seq<PaneGeometry>, axis: Axis, key: nat) -> Seq<PaneGeometry> {
    panes.filter(|p: PaneGeometry| key_of(p, axis) == key)
}

/// The groups of `panes` along `axis`: one group for each distinct key, in
/// ascending order of the key, each holding its panes in the order given.
pub open spec fn groups_of(panes: Seq<PaneGeometry>, axis: Axis) -> Seq<Seq<PaneGeometry>> {
    let keys = ascending_keys(panes, axis);
    Seq::new(keys.len(), |i: int| keyed(panes, axis, keys[i]))
}

/// What `least_above` finds is the key of a pane, lies above the floor, and
/// no key lies strictly between; it finds one where a key above the floor
/// exists. Fewer keys lie above it than above the floor.
pub proof fn lemma_least_above(panes: Seq<PaneGeometry>, axis: Axis, floor: int)
    ensures
        least_above(panes, axis, floor) matches Some(k) ==> {
            &&& k > floor
            &&& exists|i: int| 0 <= i < panes.len() && key_of(#[trigger] panes[i], axis) == k
            &&& forall|i: int|
                0 <= i < panes.len() && key_of(#[trigger] panes[i], axis) > floor ==> key_of(
                    panes[i],
                    axis,
                ) >= k
            &&& count_above(panes, axis, k as int) < count_above(panes, axis, floor)
        },
        least_above(panes, axis, floor) is None ==> {
            &&& forall|i: int| 0 <= i < panes.len() ==> key_of(#[trigger] panes[i], axis) <= floor
            &&& count_above(panes, axis, floor) == 0
        },
    decreases panes.len(),
{
    if panes.len() > 0 {
        let front = panes.drop_last();
        lemma_least_above(front, axis, floor);
        let last = panes.last();
        let k = key_of(last, axis);
        match least_above(panes, axis, floor) {
            Some(m) => {
                lemma_count_above_monotone(front, axis, floor, m as int);
                if least_above(front, axis, floor) == Some(m) {
                    let i = choose|i: int|
                        0 <= i < front.len() && key_of(#[trigger] front[i], axis) == m;
                    assert(panes[i] == front[i]);
                } else {
                    assert(panes[panes.len() - 1] == last);
                }
                assert forall|i: int|
                    0 <= i < panes.len() && key_of(#[trigger] panes[i], axis) > floor implies key_of(
                    panes[i],
                    axis,
                ) >= m by {
                    if i < front.len() {
                        assert(panes[i] == front[i]);
                    }
                }
            },
            None => {
                assert forall|i: int| 0 <= i < panes.len() implies key_of(
                    #[trigger] panes[i],
                    axis,
                ) <= floor by {
                    if i < front.len() {
                        assert(panes[i] == front[i]);
                    }
                }
            },
        }
    }
}

/// Raising the floor cannot raise the count of keys above it.
pub proof fn lemma_count_above_monotone(
    panes: Seq<PaneGeometry>,
    axis: Axis,
    low: int,
    high: int,
)
    requires
        low <= high,
    ensures
        count_above(panes, axis, high) <= count_above(panes, axis, low),
    decreases panes.len(),
{
    if panes.len() > 0 {
        lemma_count_above_monotone(panes.drop_last(), axis, low, high);
    }
}

/// The keys that `keys_from` lists are keys of panes above the floor, in
/// strictly ascending order, and every key of a pane above the floor is listed.
pub proof fn lemma_keys_from(panes: Seq<PaneGeometry>, axis: Axis, floor: int)
    ensures
        forall|i: int|
            0 <= i < keys_from(panes, axis, floor).len() ==> #[trigger] keys_from(
                panes,
                axis,
                floor,
            )[i] > floor,
        forall|i: int|
            0 <= i < keys_from(panes, axis, floor).len() ==> exists|j: int|
                0 <= j < panes.len() && key_of(#[trigger] panes[j], axis) == #[trigger] keys_from(
                    panes,
                    axis,
                    floor,
                )[i],
        forall|i: int, j: int|
            0 <= i < j < keys_from(panes, axis, floor).len() ==> #[trigger] keys_from(
                panes,
                axis,
                floor,
            )[i] < #[trigger] keys_from(panes, axis, floor)[j],
        forall|j: int|
            0 <= j < panes.len() && key_of(#[trigger] panes[j], axis) > floor ==> keys_from(
                panes,
                axis,
                floor,
            ).contains(key_of(panes[j], axis)),
    decreases count_above(panes, axis, floor),
{
    lemma_least_above(panes, axis, floor);
    let ks = keys_from(panes, axis, floor);
    match least_above(panes, axis, floor) {
        None => {},
        Some(k) => {
            let tail = keys_from(panes, axis, k as int);
            lemma_keys_from(panes, axis, k as int);
            assert(ks == seq![k] + tail);
            assert forall|i: int| 0 <= i < ks.len() implies exists|j: int|
                0 <= j < panes.len() && key_of(#[trigger] panes[j], axis) == #[trigger] ks[i] by {
                if i > 0 {
                    assert(ks[i] == tail[i - 1]);
                }
            }
            assert forall|i: int, j: int| 0 <= i < j < ks.len() implies #[trigger] ks[i]
                < #[trigger] ks[j] by {
                assert(ks[j] == tail[j - 1]);
                if i > 0 {
                    assert(ks[i] == tail[i - 1]);
                }
            }
            assert forall|j: int|
                0 <= j < panes.len() && key_of(#[trigger] panes[j], axis) > floor implies ks.contains(
                key_of(panes[j], axis),
            ) by {
                let key = key_of(panes[j], axis);
                if key == k {
                    assert(ks[0] == key);
                } else {
                    assert(tail.contains(key));
                    let t = choose|t: int| 0 <= t < tail.len() && tail[t] == key;
                    assert(ks[t + 1] == key);
                }
            }
        },
    }
}

/// A pane that fails a test makes the filtered sequence strictly shorter.
pub proof fn lemma_filter_drops<A>(s: Seq<A>, pred: spec_fn(A) -> bool, at: int)
    requires
        0 <= at < s.len(),
        !pred(s[at]),
    ensures
        s.filter(pred).len() < s.len(),
    decreases s.len(),
{
    reveal(Seq::filter);
    let front = s.drop_last();
    front.lemma_filter_len(pred);
    if at < s.len() - 1 {
        assert(front[at] == s[at]);
        lemma_filter_drops(front, pred, at);
    }
}

/// Every group of `groups_of` holds a pane, and where there are several
/// groups each is smaller than the whole.
pub proof fn lemma_group_size(panes: Seq<PaneGeometry>, axis: Axis, i: int)
    requires
        0 <= i < ascending_keys(panes, axis).len(),
    ensures
        0 < keyed(panes, axis, ascending_keys(panes, axis)[i]).len() <= panes.len(),
        ascending_keys(panes, axis).len() > 1 ==> keyed(
            panes,
            axis,
            ascending_keys(panes, axis)[i],
        ).len() < panes.len(),
{
    let keys = ascending_keys(panes, axis);
    let pred = |p: PaneGeometry| key_of(p, axis) == keys[i];
    lemma_keys_from(panes, axis, -1);
    panes.lemma_filter_len(pred);
    let j = choose|j: int| 0 <= j < panes.len() && key_of(#[trigger] panes[j], axis) == keys[i];
    panes.lemma_filter_contains(pred, j);
    if keys.len() > 1 {
        let o = if i == 0 {
            1int
        } else {
            0int
        };
        assert(keys[o] != keys[i]);
        let w = choose|w: int|
            0 <= w < panes.len() && key_of(#[trigger] panes[w], axis) == keys[o];
        lemma_filter_drops(panes, pred, w);
    }
}

/// Every pane lies between the near and the far edge of its sequence.
pub proof fn lemma_edges(panes: Seq<PaneGeometry>, axis: Axis, i: int)
    requires
        0 <= i < panes.len(),
    ensures
        near_edge(panes, axis) <= key_of(panes[i], axis),
        key_of(panes[i], axis) + extent_of(panes[i], axis) <= far_edge(panes, axis),
        extent_of(panes[i], axis) <= span_of(panes, axis),
    decreases panes.len(),
{
    if i < panes.len() - 1 {
        assert(panes.drop_last()[i] == panes[i]);
        lemma_edges(panes.drop_last(), axis, i);
    }
}

/// The thickness of a sequence is at most any bound on the extents of its panes.
pub proof fn lemma_thickness_bound(panes: Seq<PaneGeometry>, axis: Axis, bound: nat)
    requires
        forall|i: int| 0 <= i < panes.len() ==> extent_of(#[trigger] panes[i], axis) <= bound,
    ensures
        thickness_of(panes, axis) <= bound,
    decreases panes.len(),
{
    if panes.len() > 0 {
        let front = panes.drop_last();
        assert forall|i: int| 0 <= i < front.len() implies extent_of(#[trigger] front[i], axis)
            <= bound by {
            assert(front[i] == panes[i]);
        }
        lemma_thickness_bound(front, axis, bound);
        assert(panes.last() == panes[panes.len() - 1]);
    }
}

/// No group is thicker than the whole is wide.
pub proof fn lemma_group_within_span(panes: Seq<PaneGeometry>, axis: Axis, key: nat)
    ensures
        thickness_of(keyed(panes, axis, key), axis) <= span_of(panes, axis),
{
    let pred = |p: PaneGeometry| key_of(p, axis) == key;
    let group = keyed(panes, axis, key);
    assert forall|i: int| 0 <= i < group.len() implies extent_of(#[trigger] group[i], axis)
        <= span_of(panes, axis) by {
        assert(group.contains(group[i]));
        panes.lemma_filter_contains_rev(pred, group[i]);
        let j = choose|j: int| 0 <= j < panes.len() && panes[j] == group[i];
        lemma_edges(panes, axis, j);
    }
    lemma_thickness_bound(group, axis, span_of(panes, axis));
}

/// A part that is no larger than the whole is at most 100 percent of it.
pub proof fn lemma_percent_bound(part: nat, total: nat)
    requires
        part <= total,
    ensures
        percent_of(part, total) <= 100,
{
    if total > 0 {
        assert((part * 100) / total <= 100) by (nonlinear_arith)
            requires
                part <= total,
                total > 0,
        ;
    }
}

/// The share recorded for a child: its extent in percent of the whole.
pub open spec fn share_of(part: nat, total: nat) -> Option<u32> {
    Some(percent_of(part, total) as u32)
}

/// The pane as a leaf of the layout.
pub open spec fn leaf_of(pane: PaneGeometry) -> LayoutTree {
    LayoutTree::Pane { agent: agent_or_empty(pane) }
}

/// The layout that a list of panes stands for.
///
/// No pane gives an unnamed leaf, one pane gives its leaf. Several bands
/// (distinct `top`) give a column of the layouts of the bands, top to bottom.
/// One band of several stripes (distinct `left`) gives a row of the layouts
/// of the stripes, left to right. Panes that share both edges give a flat row
/// of their leaves in the order given.
pub open spec fn layout_of(panes: Seq<PaneGeometry>) -> LayoutTree
    decreases panes.len(),
{
    if panes.len() == 0 {
        LayoutTree::Pane { agent: Seq::empty() }
    } else if panes.len() == 1 {
        leaf_of(panes[0])
    } else if ascending_keys(panes, Axis::Top).len() > 1 {
        LayoutTree::Col {
            children: Seq::new(
                ascending_keys(panes, Axis::Top).len(),
                |i: int|
                    if 0 <= i < ascending_keys(panes, Axis::Top).len() {
                        let group = keyed(panes, Axis::Top, ascending_keys(panes, Axis::Top)[i]);
                        proof {
                            lemma_group_size(panes, Axis::Top, i);
                        }
                        LayoutSlot {
                            node: layout_of(group),
                            percent: share_of(
                                thickness_of(group, Axis::Top),
                                span_of(panes, Axis::Top),
                            ),
                        }
                    } else {
                        arbitrary()
                    },
            ),
        }
    } else if ascending_keys(panes, Axis::Left).len() > 1 {
        LayoutTree::Row {
            children: Seq::new(
                ascending_keys(panes, Axis::Left).len(),
                |i: int|
                    if 0 <= i < ascending_keys(panes, Axis::Left).len() {
                        let group = keyed(panes, Axis::Left, ascending_keys(panes, Axis::Left)[i]);
                        proof {
                            lemma_group_size(panes, Axis::Left, i);
                        }
                        LayoutSlot {
                            node: layout_of(group),
                            percent: share_of(
                                thickness_of(group, Axis::Left),
                                span_of(panes, Axis::Left),
                            ),
                        }
                    } else {
                        arbitrary()
                    },
            ),
        }
    } else {
        LayoutTree::Row {
            children: Seq::new(
                panes.len(),
                |i: int|
                    LayoutSlot {
                        node: leaf_of(panes[i]),
                        percent: share_of(panes[i].width, span_of(panes, Axis::Left)),
                    },
            ),
        }
    }
}

/// The floor below which keys have already been listed: none yet, or the
/// last key listed.
pub open spec fn floor_of(last: Option<u32>) -> int {
    match last {
        Some(k) => k as int,
        None => -1,
    }
}

/// An optional key as a natural number.
pub open spec fn key_value(key: Option<u32>) -> Option<nat> {
    match key {
        Some(k) => Some(k as nat),
        None => None,
    }
}

/// The keys of a vector as natural numbers.
pub open spec fn key_values(keys: Seq<u32>) -> Seq<nat> {
    Seq::new(keys.len(), |i: int| keys[i] as nat)
}

fn pane_key(pane: &TmuxPane, axis: Axis) -> (key: u32)
    ensures
        key == key_of(pane@, axis),
{
    match axis {
        Axis::Top => pane.top,
        Axis::Left => pane.left,
    }
}

fn pane_extent(pane: &TmuxPane, axis: Axis) -> (extent: u32)
    ensures
        extent == extent_of(pane@, axis),
{
    match axis {
        Axis::Top => pane.height,
        Axis::Left => pane.width,
    }
}

/// The smallest key above the last one listed.
fn next_key(panes: &[TmuxPane], axis: Axis, last: Option<u32>) -> (found: Option<u32>)
    ensures
        key_value(found) == least_above(geometries_of(panes@), axis, floor_of(last)),
{
    let ghost all = geometries_of(panes@);
    let mut found: Option<u32> = None;
    let mut i: usize = 0;
    while i < panes.len()
        invariant
            i <= panes.len(),
            all == geometries_of(panes@),
            key_value(found) == least_above(all.take(i as int), axis, floor_of(last)),
        decreases panes.len() - i,
    {
        let k = pane_key(&panes[i], axis);
        let above = match last {
            Some(f) => k > f,
            None => true,
        };
        let better = match found {
            Some(m) => k < m,
            None => true,
        };
        proof {
            assert(all.take(i + 1).drop_last() =~= all.take(i as int));
            assert(all.take(i + 1).last() == panes@[i as int]@);
        }
        if above && better {
            found = Some(k);
        }
        i += 1;
    }
    assert(all.take(panes.len() as int) =~= all);
    found
}

/// The distinct keys of the panes along `axis`, ascending.
fn distinct_keys(panes: &[TmuxPane], axis: Axis) -> (keys: Vec<u32>)
    ensures
        key_values(keys@) == ascending_keys(geometries_of(panes@), axis),
{
    let ghost all = geometries_of(panes@);
    let mut keys: Vec<u32> = Vec::new();
    let mut last: Option<u32> = None;
    let mut more = true;
    assert(key_values(keys@) + keys_from(all, axis, -1) =~= ascending_keys(all, axis));
    while more
        invariant
            all == geometries_of(panes@),
            more ==> ascending_keys(all, axis) == key_values(keys@) + keys_from(
                all,
                axis,
                floor_of(last),
            ),
            !more ==> ascending_keys(all, axis) == key_values(keys@),
        decreases count_above(all, axis, floor_of(last)), (if more { 1int } else { 0int }),
    {
        proof {
            lemma_least_above(all, axis, floor_of(last));
        }
        match next_key(panes, axis, last) {
            None => {
                assert(key_values(keys@) + Seq::<nat>::empty() =~= key_values(keys@));
                more = false;
            },
            Some(k) => {
                let ghost before = key_values(keys@);
                keys.push(k);
                assert(key_values(keys@) =~= before + seq![k as nat]);
                assert(before + (seq![k as nat] + keys_from(all, axis, k as int)) =~= key_values(
                    keys@,
                ) + keys_from(all, axis, k as int));
                last = Some(k);
            },
        }
    }
    keys
}

/// The panes whose key along `axis` is `key`, in the order given.
fn members(panes: &[TmuxPane], axis: Axis, key: u32) -> (group: Vec<TmuxPane>)
    ensures
        geometries_of(group@) == keyed(geometries_of(panes@), axis, key as nat),
{
    let ghost all = geometries_of(panes@);
    let mut group: Vec<TmuxPane> = Vec::new();
    let mut i: usize = 0;
    proof {
        reveal(Seq::filter);
        assert(geometries_of(group@) =~= keyed(all.take(0), axis, key as nat));
    }
    while i < panes.len()
        invariant
            i <= panes.len(),
            all == geometries_of(panes@),
            geometries_of(group@) == keyed(all.take(i as int), axis, key as nat),
        decreases panes.len() - i,
    {
        proof {
            reveal(Seq::filter);
            assert(all.take(i + 1).drop_last() =~= all.take(i as int));
            assert(all.take(i + 1).last() == panes@[i as int]@);
        }
        if pane_key(&panes[i], axis) == key {
            let ghost before = geometries_of(group@);
            let copy = panes[i].clone();
            group.push(copy);
            assert(geometries_of(group@) =~= before.push(panes@[i as int]@));
        }
        i += 1;
    }
    assert(all.take(panes.len() as int) =~= all);
    group
}

/// The groups of the panes along `axis`, in ascending order of their key.
fn group_by(panes: &[TmuxPane], axis: Axis) -> (groups: Vec<Vec<TmuxPane>>)
    ensures
        groups.len() == groups_of(geometries_of(panes@), axis).len(),
        forall|i: int|
            0 <= i < groups.len() ==> geometries_of(#[trigger] groups@[i]@) == groups_of(
                geometries_of(panes@),
                axis,
            )[i],
{
    let ghost all = geometries_of(panes@);
    let keys = distinct_keys(panes, axis);
    let mut groups: Vec<Vec<TmuxPane>> = Vec::new();
    let mut i: usize = 0;
    while i < keys.len()
        invariant
            i <= keys.len(),
            all == geometries_of(panes@),
            key_values(keys@) == ascending_keys(all, axis),
            groups.len() == i,
            forall|j: int|
                0 <= j < i ==> geometries_of(#[trigger] groups@[j]@) == groups_of(all, axis)[j],
        decreases keys.len() - i,
    {
        assert(key_values(keys@)[i as int] == keys@[i as int] as nat);
        let group = members(panes, axis, keys[i]);
        groups.push(group);
        i += 1;
    }
    groups
}

/// Group panes by their `top` coordinate, topmost band first.
fn group_by_top(panes: &[TmuxPane]) -> (groups: Vec<Vec<TmuxPane>>)
    ensures
        groups.len() == groups_of(geometries_of(panes@), Axis::Top).len(),
        forall|i: int|
            0 <= i < groups.len() ==> geometries_of(#[trigger] groups@[i]@) == groups_of(
                geometries_of(panes@),
                Axis::Top,
            )[i],
{
    group_by(panes, Axis::Top)
}

/// Group panes by their `left` coordinate, leftmost stripe first.
fn group_by_left(panes: &[TmuxPane]) -> (groups: Vec<Vec<TmuxPane>>)
    ensures
        groups.len() == groups_of(geometries_of(panes@), Axis::Left).len(),
        forall|i: int|
            0 <= i < groups.len() ==> geometries_of(#[trigger] groups@[i]@) == groups_of(
                geometries_of(panes@),
                Axis::Left,
            )[i],
{
    group_by(panes, Axis::Left)
}

/// The total extent of the panes along `axis`.
fn compute_total(panes: &[TmuxPane], axis: Axis) -> (total: u64)
    ensures
        total == span_of(geometries_of(panes@), axis),
{
    let ghost all = geometries_of(panes@);
    let mut near: u32 = 0;
    let mut far: u64 = 0;
    let mut i: usize = 0;
    while i < panes.len()
        invariant
            i <= panes.len(),
            all == geometries_of(panes@),
            near == near_edge(all.take(i as int), axis),
            far == far_edge(all.take(i as int), axis),
            i > 0 ==> near <= far,
            far <= 2 * u32::MAX,
        decreases panes.len() - i,
    {
        proof {
            assert(all.take(i + 1).drop_last() =~= all.take(i as int));
            assert(all.take(i + 1).last() == panes@[i as int]@);
            if i == 0 {
                assert(all.take(1)[0] == panes@[0]@);
            }
        }
        let k = pane_key(&panes[i], axis);
        let e: u64 = k as u64 + pane_extent(&panes[i], axis) as u64;
        if i == 0 || k < near {
            near = k;
        }
        if e > far {
            far = e;
        }
        i += 1;
    }
    assert(all.take(panes.len() as int) =~= all);
    far - near as u64
}

/// Total width: the rightmost edge minus the leftmost.
fn compute_total_width(panes: &[TmuxPane]) -> (total: u64)
    ensures
        total == span_of(geometries_of(panes@), Axis::Left),
{
    compute_total(panes, Axis::Left)
}

/// Total height: the lowest edge minus the topmost.
fn compute_total_height(panes: &[TmuxPane]) -> (total: u64)
    ensures
        total == span_of(geometries_of(panes@), Axis::Top),
{
    compute_total(panes, Axis::Top)
}

/// The largest extent along `axis` in a group.
fn group_extent(group: &[TmuxPane], axis: Axis) -> (extent: u32)
    ensures
        extent == thickness_of(geometries_of(group@), axis),
{
    let ghost all = geometries_of(group@);
    let mut extent: u32 = 0;
    let mut i: usize = 0;
    while i < group.len()
        invariant
            i <= group.len(),
            all == geometries_of(group@),
            extent == thickness_of(all.take(i as int), axis),
        decreases group.len() - i,
    {
        proof {
            assert(all.take(i + 1).drop_last() =~= all.take(i as int));
            assert(all.take(i + 1).last() == group@[i as int]@);
        }
        let e = pane_extent(&group[i], axis);
        if e > extent {
            extent = e;
        }
        i += 1;
    }
    assert(all.take(group.len() as int) =~= all);
    extent
}

/// Height of a group of panes that share a `top`.
fn group_height(group: &[TmuxPane]) -> (height: u32)
    ensures
        height == thickness_of(geometries_of(group@), Axis::Top),
{
    group_extent(group, Axis::Top)
}

/// Width of a group of panes that share a `left`.
fn group_width(group: &[TmuxPane]) -> (width: u32)
    ensures
        width == thickness_of(geometries_of(group@), Axis::Left),
{
    group_extent(group, Axis::Left)
}

/// `part` in percent of `total`, rounded down; 0 for an empty whole.
fn percent(part: u32, total: u64) -> (share: u32)
    requires
        part <= total,
    ensures
        share == percent_of(part as nat, total as nat),
        share <= 100,
{
    proof {
        lemma_percent_bound(part as nat, total as nat);
    }
    if total > 0 {
        let scaled: u64 = part as u64 * 100;
        (scaled / total) as u32
    } else {
        0
    }
}

/// The name under which a pane appears as a leaf.
fn leaf_name(pane: &TmuxPane) -> (name: String)
    ensures
        name@ == agent_or_empty(pane@),
{
    match &pane.agent {
        Some(agent) => agent.clone(),
        None => String::new(),
    }
}

/// The entries for the groups of `panes` along `axis`: each group
/// reconstructed on its own, with its share of the whole.
fn arrange(panes: &[TmuxPane], axis: Axis, groups: &Vec<Vec<TmuxPane>>) -> (children: Vec<
    LayoutEntry,
>)
    requires
        groups.len() == groups_of(geometries_of(panes@), axis).len(),
        forall|i: int|
            0 <= i < groups.len() ==> geometries_of(#[trigger] groups@[i]@) == groups_of(
                geometries_of(panes@),
                axis,
            )[i],
        groups.len() > 1,
    ensures
        children.len() == groups.len(),
        forall|i: int|
            0 <= i < children.len() ==> #[trigger] children@[i]@ == (LayoutSlot {
                node: layout_of(groups_of(geometries_of(panes@), axis)[i]),
                percent: share_of(
                    thickness_of(groups_of(geometries_of(panes@), axis)[i], axis),
                    span_of(geometries_of(panes@), axis),
                ),
            }),
    decreases panes.len(), 0int,
{
    let ghost all = geometries_of(panes@);
    let total = match axis {
        Axis::Top => compute_total_height(panes),
        Axis::Left => compute_total_width(panes),
    };
    let mut children: Vec<LayoutEntry> = Vec::new();
    let mut i: usize = 0;
    while i < groups.len()
        invariant
            i <= groups.len(),
            all == geometries_of(panes@),
            total == span_of(all, axis),
            groups.len() == groups_of(all, axis).len(),
            groups.len() > 1,
            forall|j: int|
                0 <= j < groups.len() ==> geometries_of(#[trigger] groups@[j]@) == groups_of(
                    all,
                    axis,
                )[j],
            children.len() == i,
            forall|j: int|
                0 <= j < i ==> #[trigger] children@[j]@ == (LayoutSlot {
                    node: layout_of(groups_of(all, axis)[j]),
                    percent: share_of(
                        thickness_of(groups_of(all, axis)[j], axis),
                        span_of(all, axis),
                    ),
                }),
        decreases groups.len() - i,
    {
        let group = &groups[i];
        proof {
            lemma_group_size(all, axis, i as int);
            lemma_group_within_span(all, axis, ascending_keys(all, axis)[i as int]);
            assert(geometries_of(group@).len() == group@.len());
        }
        let node = from_panes(group.as_slice());
        let extent = match axis {
            Axis::Top => group_height(group.as_slice()),
            Axis::Left => group_width(group.as_slice()),
        };
        let share = percent(extent, total);
        children.push(LayoutEntry { node, percent: Some(share) });
        i += 1;
    }
    children
}

/// Reconstruct a layout tree from a flat list of pane geometries.
///
/// Panes are grouped by their exact `top`; several groups are stacked in a
/// column, ascending. Panes that all share a `top` are grouped by their exact
/// `left`; several groups stand in a row, ascending. Panes that share both are
/// laid out as a flat row of leaves. Each child carries its extent in percent
/// of the whole, rounded down, which never exceeds 100.
pub fn from_panes(panes: &[TmuxPane]) -> (node: LayoutNode)
    ensures
        node@ == layout_of(geometries_of(panes@)),
        panes.len() == 1 ==> node@ == (LayoutTree::Pane { agent: agent_or_empty(panes[0]@) }),
    decreases panes.len(), 1int,
{
    let ghost all = geometries_of(panes@);
    if panes.len() == 0 {
        return LayoutNode::Pane { agent: String::new() };
    }
    if panes.len() == 1 {
        return LayoutNode::Pane { agent: leaf_name(&panes[0]) };
    }
    let top_groups = group_by_top(panes);
    if top_groups.len() > 1 {
        let children = arrange(panes, Axis::Top, &top_groups);
        let node = LayoutNode::Col { children };
        proof {
            lemma_children_view(node);
            assert(slots_of(children@) =~= layout_of(all)->Col_children);
        }
        return node;
    }
    let left_groups = group_by_left(panes);
    if left_groups.len() > 1 {
        let children = arrange(panes, Axis::Left, &left_groups);
        let node = LayoutNode::Row { children };
        proof {
            lemma_children_view(node);
            assert(slots_of(children@) =~= layout_of(all)->Row_children);
        }
        return node;
    }
    let total = compute_total_width(panes);
    let mut children: Vec<LayoutEntry> = Vec::new();
    let mut i: usize = 0;
    while i < panes.len()
        invariant
            i <= panes.len(),
            all == geometries_of(panes@),
            total == span_of(all, Axis::Left),
            children.len() == i,
            forall|j: int|
                0 <= j < i ==> #[trigger] children@[j]@ == (LayoutSlot {
                    node: leaf_of(all[j]),
                    percent: share_of(all[j].width, span_of(all, Axis::Left)),
                }),
        decreases panes.len() - i,
    {
        proof {
            lemma_edges(all, Axis::Left, i as int);
        }
        let share = percent(panes[i].width, total);
        children.push(
            LayoutEntry { node: LayoutNode::Pane { agent: leaf_name(&panes[i]) }, percent: Some(share) },
        );
        i += 1;
    }
    let node = LayoutNode::Row { children };
    proof {
        lemma_children_view(node);
        assert(slots_of(children@) =~= layout_of(all)->Row_children);
    }
    node
}

/// Whether two layouts differ anywhere: in shape, in a name or in a share.
pub fn diff(a: &LayoutNode, b: &LayoutNode) -> (changed: bool)
    ensures
        changed == (a@ != b@),
{
    !(a == b)
}

/// The set of the keys of `panes` along `axis`.
pub open spec fn key_set(panes: Seq<PaneGeometry>, axis: Axis) -> Set<nat> {
    Set::new(|k: nat| exists|i: int| 0 <= i < panes.len() && key_of(#[trigger] panes[i], axis) == k)
}

/// `ascending_keys` lists each key of the panes exactly once.
pub proof fn lemma_ascending_keys_count(panes: Seq<PaneGeometry>, axis: Axis)
    ensures
        key_set(panes, axis).finite(),
        ascending_keys(panes, axis).len() == key_set(panes, axis).len(),
        ascending_keys(panes, axis).to_set() == key_set(panes, axis),
{
    let keys = ascending_keys(panes, axis);
    lemma_keys_from(panes, axis, -1);
    assert(keys.no_duplicates());
    assert forall|k: nat| keys.to_set().contains(k) == key_set(panes, axis).contains(k) by {
        if keys.to_set().contains(k) {
            let i = choose|i: int| 0 <= i < keys.len() && keys[i] == k;
            assert(keys[i] == k);
        }
        if key_set(panes, axis).contains(k) {
            let j = choose|j: int| 0 <= j < panes.len() && key_of(#[trigger] panes[j], axis) == k;
            assert(keys.contains(key_of(panes[j], axis)));
        }
    }
    assert(keys.to_set() =~= key_set(panes, axis));
    keys.unique_seq_to_set();
    vstd::seq_lib::seq_to_set_is_finite(keys);
}

/// Panes with more than one distinct `top` are reconstructed as a column
/// with one child for each distinct `top`, in ascending order of the `top`:
/// each child is the reconstruction of the panes at that `top`, and its share
/// is at most 100.
pub proof fn lemma_distinct_tops_make_column(panes: Seq<PaneGeometry>)
    requires
        key_set(panes, Axis::Top).len() > 1,
    ensures
        layout_of(panes) is Col,
        layout_of(panes)->Col_children.len() == key_set(panes, Axis::Top).len(),
        ascending_keys(panes, Axis::Top).len() == key_set(panes, Axis::Top).len(),
        forall|i: int, j: int|
            0 <= i < j < ascending_keys(panes, Axis::Top).len() ==> #[trigger] ascending_keys(
                panes,
                Axis::Top,
            )[i] < #[trigger] ascending_keys(panes, Axis::Top)[j],
        forall|i: int|
            0 <= i < layout_of(panes)->Col_children.len() ==> {
                let child = #[trigger] layout_of(panes)->Col_children[i];
                &&& child.node == layout_of(
                    keyed(panes, Axis::Top, ascending_keys(panes, Axis::Top)[i]),
                )
                &&& child.percent matches Some(share)
                &&& 0 <= share <= 100
            },
{
    lemma_ascending_keys_count(panes, Axis::Top);
    lemma_keys_from(panes, Axis::Top, -1);
    let keys = ascending_keys(panes, Axis::Top);
    assert(panes.len() >= 2) by {
        // two distinct keys are the keys of two panes
        assert(keys[0] < keys[1]);
    }
    assert forall|i: int| 0 <= i < layout_of(panes)->Col_children.len() implies {
        let child = #[trigger] layout_of(panes)->Col_children[i];
        &&& child.percent matches Some(share)
        &&& 0 <= share <= 100
    } by {
        lemma_group_within_span(panes, Axis::Top, keys[i]);
        lemma_percent_bound(
            thickness_of(keyed(panes, Axis::Top, keys[i]), Axis::Top),
            span_of(panes, Axis::Top),
        );
    }
}

/// A single pane is reconstructed as its leaf: the pane's agent, or the
/// empty name where it has none.
pub proof fn lemma_single_pane_is_leaf(panes: Seq<PaneGeometry>)
    requires
        panes.len() == 1,
    ensures
        layout_of(panes) == (LayoutTree::Pane { agent: agent_or_empty(panes[0]) }),
{
}

/// Whether every share recorded anywhere in the layout is at most `limit`.
pub open spec fn shares_within(tree: LayoutTree, limit: nat) -> bool
    decreases tree,
{
    match tree {
        LayoutTree::Pane { agent } => true,
        LayoutTree::Row { children } => forall|i: int|
            0 <= i < children.len() ==> {
                &&& (#[trigger] children[i]).percent matches Some(share) ==> share <= limit
                &&& shares_within(children[i].node, limit)
            },
        LayoutTree::Col { children } => forall|i: int|
            0 <= i < children.len() ==> {
                &&& (#[trigger] children[i]).percent matches Some(share) ==> share <= limit
                &&& shares_within(children[i].node, limit)
            },
    }
}

/// The shares of the groups along `axis` and of all that lies below them
/// are at most 100.
proof fn lemma_group_shares(panes: Seq<PaneGeometry>, axis: Axis, i: int)
    requires
        ascending_keys(panes, axis).len() > 1,
        0 <= i < ascending_keys(panes, axis).len(),
    ensures
        percent_of(
            thickness_of(keyed(panes, axis, ascending_keys(panes, axis)[i]), axis),
            span_of(panes, axis),
        ) <= 100,
        shares_within(layout_of(keyed(panes, axis, ascending_keys(panes, axis)[i])), 100),
    decreases panes.len(), 0int,
{
    let key = ascending_keys(panes, axis)[i];
    lemma_group_size(panes, axis, i);
    lemma_group_within_span(panes, axis, key);
    lemma_percent_bound(thickness_of(keyed(panes, axis, key), axis), span_of(panes, axis));
    lemma_shares_at_most_hundred(keyed(panes, axis, key));
}

/// No share in a reconstructed layout exceeds 100, whatever the panes.
pub proof fn lemma_shares_at_most_hundred(panes: Seq<PaneGeometry>)
    ensures
        shares_within(layout_of(panes), 100),
    decreases panes.len(), 1int,
{
    let tree = layout_of(panes);
    if panes.len() < 2 {
    } else if ascending_keys(panes, Axis::Top).len() > 1 {
        let children = tree->Col_children;
        assert forall|i: int| 0 <= i < children.len() implies {
            &&& (#[trigger] children[i]).percent matches Some(share) ==> share <= 100
            &&& shares_within(children[i].node, 100)
        } by {
            lemma_group_shares(panes, Axis::Top, i);
        }
    } else if ascending_keys(panes, Axis::Left).len() > 1 {
        let children = tree->Row_children;
        assert forall|i: int| 0 <= i < children.len() implies {
            &&& (#[trigger] children[i]).percent matches Some(share) ==> share <= 100
            &&& shares_within(children[i].node, 100)
        } by {
            lemma_group_shares(panes, Axis::Left, i);
        }
    } else {
        let children = tree->Row_children;
        assert forall|i: int| 0 <= i < children.len() implies {
            &&& (#[trigger] children[i]).percent matches Some(share) ==> share <= 100
            &&& shares_within(children[i].node, 100)
        } by {
            lemma_edges(panes, Axis::Left, i);
            lemma_percent_bound(panes[i].width, span_of(panes, Axis::Left));
        }
    }
}

} // verus!
