//! What stack placement promises, proved from `stack_spec`.
use vstd::prelude::*;

use crate::stack::{
    inner_cross_spec, auto_fills, cross_room, fits, fixed_total, flex_count, flexible, frame_at, inset_along, is_flex,
    main_room, measure_prefix, measure_stack_spec, natural, position, remaining, share, shown,
    shown_prefix, sizes, stack_spec, total_spacing, Frame, Insets, MeasuredChild, ShownChild,
    StackChild, StackGeometry,
};

verus! {

/// The sum of the first `k` sizes.
pub open spec fn sum_to(sz: Seq<int>, k: int) -> int
    decreases k,
{
    if k <= 0 {
        0
    } else {
        sum_to(sz, k - 1) + sz[k - 1]
    }
}

/// A position that exists lies in range, the earlier ones exist too, and
/// it is the start plus the sizes and spacings before it.
proof fn lemma_position(sz: Seq<int>, start: int, spacing: int, k: int)
    requires
        0 <= k,
        fits(start),
        position(sz, start, spacing, k) is Some,
    ensures
        position(sz, start, spacing, k)->0 == start + sum_to(sz, k) + k * spacing,
        fits(position(sz, start, spacing, k)->0),
        forall|j: int| 0 <= j <= k ==> #[trigger] position(sz, start, spacing, j) is Some,
    decreases k,
{
    if k == 0 {
        assert(k * spacing == 0) by (nonlinear_arith)
            requires
                k == 0,
        ;
    } else {
        assert(position(sz, start, spacing, k - 1) is Some);
        lemma_position(sz, start, spacing, k - 1);
        assert(k * spacing == (k - 1) * spacing + spacing) by (nonlinear_arith);
        assert forall|j: int| 0 <= j <= k implies #[trigger] position(sz, start, spacing, j) is Some by {
            if j < k {
                assert(position(sz, start, spacing, j) is Some);
            }
        }
    }
}

/// The sizes add up to the fixed total plus one share per flexible child.
proof fn lemma_sizes_sum(
    vis: Seq<ShownChild>,
    measured: Seq<i32>,
    vertical: bool,
    fill: bool,
    s: int,
    k: int,
)
    requires
        0 <= k <= vis.len(),
        fixed_total(vis, measured, vertical, fill, k) is Some,
    ensures
        sum_to(sizes(vis, measured, vertical, fill, s), k) == fixed_total(vis, measured, vertical, fill, k)->0
            + flex_count(vis, fill, k) * s,
        0 <= flex_count(vis, fill, k) <= k,
    decreases k,
{
    if k > 0 {
        assert(fixed_total(vis, measured, vertical, fill, k - 1) is Some);
        lemma_sizes_sum(vis, measured, vertical, fill, s, k - 1);
        let fc = flex_count(vis, fill, k - 1);
        if flexible(vis, fill, k - 1) {
            assert((fc + 1) * s == fc * s + s) by (nonlinear_arith);
        }
    }
}

/// The main size of a frame.
pub open spec fn main_extent(f: Frame, vertical: bool) -> int {
    if vertical {
        f.h as int
    } else {
        f.w as int
    }
}

/// The position of a frame along the axis.
pub open spec fn main_start(f: Frame, vertical: bool) -> int {
    if vertical {
        f.y as int
    } else {
        f.x as int
    }
}

/// Facts about a layout that exists: the share is never negative, the
/// positions exist, and each frame sits at its position with its size.
proof fn lemma_frames(vis: Seq<ShownChild>, measured: Seq<i32>, g: StackGeometry, fill: bool)
    requires
        measured.len() == vis.len(),
        vis.len() > 0,
        stack_spec(vis, measured, g, fill) is Some,
    ensures
        ({
            let n = vis.len() as int;
            let v = g.vertical;
            let ft = fixed_total(vis, measured, v, fill, n)->0;
            let ts = total_spacing(n, g.spacing as int);
            let room = main_room(g)->0;
            let s = share(remaining(room, ft, ts), flex_count(vis, fill, n));
            let sz = sizes(vis, measured, v, fill, s);
            let start = if v { g.top as int } else { g.left as int };
            let frames = stack_spec(vis, measured, g, fill)->0;
            &&& fixed_total(vis, measured, v, fill, n) is Some
            &&& fits(s)
            &&& s >= 0
            &&& frames.len() == n
            &&& forall|i: int| 0 <= i < n ==> fits(#[trigger] sz[i])
            &&& forall|i: int|
                0 <= i < n ==> {
                    &&& position(sz, start, g.spacing as int, i) is Some
                    &&& main_start(#[trigger] frames[i], v) == position(sz, start, g.spacing as int, i)->0
                    &&& main_extent(frames[i], v) == sz[i]
                }
            &&& position(sz, start, g.spacing as int, n) is Some
        }),
{
    let n = vis.len() as int;
    let v = g.vertical;
    let ft = fixed_total(vis, measured, v, fill, n)->0;
    let ts = total_spacing(n, g.spacing as int);
    let room = main_room(g)->0;
    let rem = remaining(room, ft, ts);
    let fc = flex_count(vis, fill, n);
    let s = share(rem, fc);
    let sz = sizes(vis, measured, v, fill, s);
    let start = if v { g.top as int } else { g.left as int };
    let frames = stack_spec(vis, measured, g, fill)->0;
    lemma_sizes_sum(vis, measured, v, fill, s, n);
    if fc > 0 {
        assert(0 <= rem / fc <= rem) by (nonlinear_arith)
            requires
                rem >= 0,
                fc > 0,
        ;
    }
    lemma_position(sz, start, g.spacing as int, n);
    assert forall|i: int| 0 <= i < n implies fits(#[trigger] sz[i]) by {}
    assert forall|i: int|
        0 <= i < n implies {
            &&& position(sz, start, g.spacing as int, i) is Some
            &&& main_start(#[trigger] frames[i], v) == position(sz, start, g.spacing as int, i)->0
            &&& main_extent(frames[i], v) == sz[i]
        } by {
        assert(position(sz, start, g.spacing as int, i) is Some);
        lemma_position(sz, start, g.spacing as int, i);
        assert(frames[i] == frame_at(
            g,
            vis[i].info,
            cross_room(g)->0,
            position(sz, start, g.spacing as int, i)->0,
            sz[i],
        ));
    }
}

/// Children are placed in order, each one the spacing after the end of
/// the one before; the first starts at the leading inset.
pub proof fn law_children_are_consecutive(
    vis: Seq<ShownChild>,
    measured: Seq<i32>,
    g: StackGeometry,
    fill: bool,
)
    requires
        measured.len() == vis.len(),
        stack_spec(vis, measured, g, fill) is Some,
    ensures
        ({
            let frames = stack_spec(vis, measured, g, fill)->0;
            let v = g.vertical;
            &&& frames.len() == vis.len()
            &&& vis.len() > 0 ==> main_start(frames[0], v) == (if v {
                g.top as int
            } else {
                g.left as int
            })
            &&& forall|i: int|
                0 <= i < vis.len() - 1 ==> main_start(#[trigger] frames[i + 1], v) == main_start(
                    frames[i],
                    v,
                ) + main_extent(frames[i], v) + g.spacing
        }),
{
    if vis.len() > 0 {
        lemma_frames(vis, measured, g, fill);
        let n = vis.len() as int;
        let v = g.vertical;
        let ft = fixed_total(vis, measured, v, fill, n)->0;
        let ts = total_spacing(n, g.spacing as int);
        let room = main_room(g)->0;
        let s = share(remaining(room, ft, ts), flex_count(vis, fill, n));
        let sz = sizes(vis, measured, v, fill, s);
        let start = if v { g.top as int } else { g.left as int };
        let frames = stack_spec(vis, measured, g, fill)->0;
        assert forall|i: int| 0 <= i < vis.len() - 1 implies main_start(#[trigger] frames[i + 1], v)
            == main_start(frames[i], v) + main_extent(frames[i], v) + g.spacing by {
            let a = frames[i];
            let b = frames[i + 1];
            assert(main_start(a, v) == position(sz, start, g.spacing as int, i)->0);
            assert(main_start(b, v) == position(sz, start, g.spacing as int, i + 1)->0);
        }
    }
}

/// Every flexible child gets the same share of the remaining space, never
/// negative; every other child keeps its fixed or measured size.
pub proof fn law_flexible_children_share(
    vis: Seq<ShownChild>,
    measured: Seq<i32>,
    g: StackGeometry,
    fill: bool,
)
    requires
        measured.len() == vis.len(),
        stack_spec(vis, measured, g, fill) is Some,
    ensures
        ({
            let frames = stack_spec(vis, measured, g, fill)->0;
            let v = g.vertical;
            &&& forall|i: int, j: int|
                0 <= i < vis.len() && 0 <= j < vis.len() && flexible(vis, fill, i) && flexible(
                    vis,
                    fill,
                    j,
                ) ==> main_extent(#[trigger] frames[i], v) == main_extent(#[trigger] frames[j], v)
                    && main_extent(frames[i], v) >= 0
            &&& forall|i: int|
                0 <= i < vis.len() && !flexible(vis, fill, i) ==> main_extent(#[trigger] frames[i], v)
                    == natural(vis, measured, v, i)
        }),
{
    if vis.len() > 0 {
        lemma_frames(vis, measured, g, fill);
    }
}

/// With the fill distribution and no spacer or fill-remaining child, the
/// last shown child is the one that takes the remaining space.
pub proof fn law_last_child_fills(vis: Seq<ShownChild>, fill: bool)
    requires
        fill,
        vis.len() > 0,
        forall|j: int| 0 <= j < vis.len() ==> !is_flex(#[trigger] vis[j].info),
    ensures
        flexible(vis, fill, vis.len() - 1),
        forall|i: int| 0 <= i < vis.len() - 1 ==> !flexible(vis, fill, i),
{
    assert(auto_fills(vis, fill));
}

/// When the fixed sizes and the spacing fit and some child flexes, the
/// children fill the room along the axis: the last one ends inside it,
/// short of its end by less than one pixel per flexible child (what the
/// equal shares cannot divide).
pub proof fn law_children_fill_room(vis: Seq<ShownChild>, measured: Seq<i32>, g: StackGeometry, fill: bool)
    requires
        measured.len() == vis.len(),
        vis.len() > 0,
        stack_spec(vis, measured, g, fill) is Some,
        flex_count(vis, fill, vis.len() as int) > 0,
        main_room(g)->0 >= fixed_total(vis, measured, g.vertical, fill, vis.len() as int)->0
            + total_spacing(vis.len() as int, g.spacing as int),
    ensures
        ({
            let frames = stack_spec(vis, measured, g, fill)->0;
            let v = g.vertical;
            let last = frames[vis.len() - 1];
            let start = if v { g.top as int } else { g.left as int };
            let end = main_start(last, v) + main_extent(last, v);
            &&& end <= start + main_room(g)->0
            &&& end > start + main_room(g)->0 - flex_count(vis, fill, vis.len() as int)
        }),
{
    lemma_frames(vis, measured, g, fill);
    let n = vis.len() as int;
    let v = g.vertical;
    let ft = fixed_total(vis, measured, v, fill, n)->0;
    let ts = total_spacing(n, g.spacing as int);
    let room = main_room(g)->0;
    let rem = remaining(room, ft, ts);
    let fc = flex_count(vis, fill, n);
    let s = share(rem, fc);
    let sz = sizes(vis, measured, v, fill, s);
    let start = if v { g.top as int } else { g.left as int };
    let sp = g.spacing as int;
    lemma_sizes_sum(vis, measured, v, fill, s, n);
    lemma_position(sz, start, sp, n - 1);
    assert(position(sz, start, sp, n - 1) is Some);
    // The last child ends at the start plus every size and every gap.
    assert((n - 1) * sp == ts) by (nonlinear_arith)
        requires
            ts == (if n > 1 { sp * (n - 1) } else { 0 }),
            n >= 1,
    ;
    assert(rem == room - ft - ts);
    assert(fc * (rem / fc) <= rem && fc * (rem / fc) > rem - fc) by (nonlinear_arith)
        requires
            fc > 0,
            rem >= 0,
    ;
}

/// Only shown children are placed, each once, in their order, and every
/// shown child is placed: hidden and absent children get no space.
pub proof fn law_only_shown_children_are_placed(children: Seq<StackChild>)
    requires
        children.len() <= usize::MAX,
    ensures
        forall|k: int|
            0 <= k < shown(children).len() ==> {
                let c = #[trigger] shown(children)[k];
                &&& 0 <= c.index < children.len()
                &&& children[c.index as int] == StackChild::Shown(c.info)
            },
        forall|j: int, k: int|
            0 <= j < k < shown(children).len() ==> shown(children)[j].index < shown(children)[k].index,
        forall|i: int|
            0 <= i < children.len() && children[i] is Shown ==> exists|k: int|
                0 <= k < shown(children).len() && #[trigger] shown(children)[k].index == i,
{
    lemma_shown_sound(children, children.len() as int);
    lemma_shown_ordered(children, children.len() as int);
    lemma_shown_complete(children, children.len() as int);
}

/// The prefix grows by the child at `n - 1` when it is shown.
proof fn lemma_shown_step(children: Seq<StackChild>, n: int)
    requires
        0 < n <= children.len(),
        children.len() <= usize::MAX,
    ensures
        children[n - 1] is Shown ==> shown_prefix(children, n) == shown_prefix(children, n - 1).push(
            ShownChild { index: (n - 1) as usize, info: children[n - 1]->Shown_0 },
        ),
        !(children[n - 1] is Shown) ==> shown_prefix(children, n) == shown_prefix(children, n - 1),
{
}

proof fn lemma_shown_sound(children: Seq<StackChild>, n: int)
    requires
        0 <= n <= children.len(),
        children.len() <= usize::MAX,
    ensures
        forall|k: int|
            0 <= k < shown_prefix(children, n).len() ==> {
                let c = #[trigger] shown_prefix(children, n)[k];
                &&& 0 <= c.index < n
                &&& children[c.index as int] == StackChild::Shown(c.info)
            },
    decreases n,
{
    if n > 0 {
        lemma_shown_sound(children, n - 1);
        lemma_shown_step(children, n);
        let rest = shown_prefix(children, n - 1);
        let all = shown_prefix(children, n);
        assert forall|k: int| 0 <= k < all.len() implies {
            let c = #[trigger] all[k];
            &&& 0 <= c.index < n
            &&& children[c.index as int] == StackChild::Shown(c.info)
        } by {
            if k < rest.len() {
                assert(all[k] == rest[k]);
            }
        }
    }
}

proof fn lemma_shown_ordered(children: Seq<StackChild>, n: int)
    requires
        0 <= n <= children.len(),
        children.len() <= usize::MAX,
    ensures
        forall|j: int, k: int|
            0 <= j < k < shown_prefix(children, n).len() ==> shown_prefix(children, n)[j].index
                < shown_prefix(children, n)[k].index,
    decreases n,
{
    if n > 0 {
        lemma_shown_ordered(children, n - 1);
        lemma_shown_sound(children, n - 1);
        lemma_shown_step(children, n);
        let rest = shown_prefix(children, n - 1);
        let all = shown_prefix(children, n);
        assert forall|j: int, k: int| 0 <= j < k < all.len() implies all[j].index < all[k].index by {
            assert(all[j] == rest[j]);
            if k < rest.len() {
                assert(all[k] == rest[k]);
            }
        }
    }
}

proof fn lemma_shown_complete(children: Seq<StackChild>, n: int)
    requires
        0 <= n <= children.len(),
        children.len() <= usize::MAX,
    ensures
        forall|i: int|
            0 <= i < n && children[i] is Shown ==> exists|k: int|
                0 <= k < shown_prefix(children, n).len() && #[trigger] shown_prefix(children, n)[k].index
                    == i,
    decreases n,
{
    if n > 0 {
        lemma_shown_complete(children, n - 1);
        lemma_shown_step(children, n);
        let rest = shown_prefix(children, n - 1);
        let all = shown_prefix(children, n);
        assert forall|i: int| 0 <= i < n && children[i] is Shown implies exists|k: int|
            0 <= k < all.len() && #[trigger] all[k].index == i by {
            if i < n - 1 {
                let k = choose|k: int| 0 <= k < rest.len() && #[trigger] rest[k].index == i;
                assert(all[k] == rest[k]);
            } else {
                assert(all[rest.len() as int].index == i);
            }
        }
    }
}

/// The room across a stack's axis is its cross size less both cross
/// insets: a column's width less its left and right insets, a row's height
/// less its top and bottom insets (when that arithmetic is 32-bit).
pub proof fn law_cross_room_excludes_both_insets(g: StackGeometry)
    ensures
        g.vertical && fits(g.width - g.left) && fits(g.width - g.left - g.right) ==> cross_room(g) == Some(
            g.width - g.left - g.right,
        ),
        !g.vertical && fits(g.height - g.top) && fits(g.height - g.top - g.bottom) ==> cross_room(g)
            == Some(g.height - g.top - g.bottom),
        cross_room(g) is Some ==> cross_room(g)->0 == (if g.vertical {
            g.width - g.left - g.right
        } else {
            g.height - g.top - g.bottom
        }),
{
}

/// Across the axis every child starts at the leading inset (a column's
/// left inset, a row's top inset) and spans the room between both insets,
/// unless the app fixed its size across the axis, which it then keeps.
pub proof fn law_children_sit_between_cross_insets(
    vis: Seq<ShownChild>,
    measured: Seq<i32>,
    g: StackGeometry,
    fill: bool,
)
    requires
        measured.len() == vis.len(),
        stack_spec(vis, measured, g, fill) is Some,
    ensures
        forall|i: int|
            0 <= i < vis.len() ==> {
                let f = #[trigger] stack_spec(vis, measured, g, fill)->0[i];
                let c = vis[i].info;
                &&& g.vertical ==> f.x == g.left && f.w == (match c.fixed_width {
                    Some(w) => w as int,
                    None => g.width - g.left - g.right,
                })
                &&& !g.vertical ==> f.y == g.top && f.h == (match c.fixed_height {
                    Some(h) => h as int,
                    None => g.height - g.top - g.bottom,
                })
            },
{
    if vis.len() > 0 {
        lemma_frames(vis, measured, g, fill);
        let n = vis.len() as int;
        let v = g.vertical;
        let ft = fixed_total(vis, measured, v, fill, n)->0;
        let ts = total_spacing(n, g.spacing as int);
        let room = main_room(g)->0;
        let s = share(remaining(room, ft, ts), flex_count(vis, fill, n));
        let sz = sizes(vis, measured, v, fill, s);
        let start = if v { g.top as int } else { g.left as int };
        let frames = stack_spec(vis, measured, g, fill)->0;
        assert forall|i: int| 0 <= i < vis.len() implies {
            let f = #[trigger] frames[i];
            let c = vis[i].info;
            &&& g.vertical ==> f.x == g.left && f.w == (match c.fixed_width {
                Some(w) => w as int,
                None => g.width - g.left - g.right,
            })
            &&& !g.vertical ==> f.y == g.top && f.h == (match c.fixed_height {
                Some(h) => h as int,
                None => g.height - g.top - g.bottom,
            })
        } by {
            assert(frames[i] == frame_at(
                g,
                vis[i].info,
                cross_room(g)->0,
                position(sz, start, g.spacing as int, i)->0,
                sz[i],
            ));
        }
    }
}

/// Measured across its own axis, a stack is as large as its insets plus
/// its largest counted child: no smaller than any child with the insets,
/// and equal to the insets alone or to one such child with the insets, so
/// the order of the children does not matter.
pub proof fn law_cross_measure_is_largest_child(
    column: bool,
    vertical: bool,
    ins: Insets,
    spacing: int,
    cross_size: int,
    children: Seq<MeasuredChild>,
)
    requires
        column != vertical,
        measure_stack_spec(column, vertical, ins, spacing, cross_size, children) is Some,
    ensures
        ({
            let r = measure_stack_spec(column, vertical, ins, spacing, cross_size, children)->0;
            let inset = if vertical { ins.top + ins.bottom } else { ins.left + ins.right };
            &&& r >= inset
            &&& forall|k: int|
                0 <= k < children.len() && #[trigger] children[k] is Content ==> r >= children[k]->Content_0
                    + inset
            &&& r == inset || exists|k: int|
                0 <= k < children.len() && #[trigger] children[k] is Content && r == children[k]->Content_0
                    + inset
        }),
{
    let inset = inset_along(ins, vertical);
    lemma_cross_prefix(children, inset, children.len() as int);
}

proof fn lemma_cross_prefix(children: Seq<MeasuredChild>, inset: int, n: int)
    requires
        0 <= n <= children.len(),
        measure_prefix(children, false, inset, n) is Some,
    ensures
        ({
            let t = (measure_prefix(children, false, inset, n)->0).0;
            &&& t >= inset
            &&& forall|k: int|
                0 <= k < n && #[trigger] children[k] is Content ==> t >= children[k]->Content_0 + inset
            &&& t == inset || exists|k: int|
                0 <= k < n && #[trigger] children[k] is Content && t == children[k]->Content_0 + inset
        }),
    decreases n,
{
    if n > 0 {
        assert(measure_prefix(children, false, inset, n - 1) is Some);
        lemma_cross_prefix(children, inset, n - 1);
        let t0 = (measure_prefix(children, false, inset, n - 1)->0).0;
        let t = (measure_prefix(children, false, inset, n)->0).0;
        if children[n - 1] is Content {
            if t != inset && t != t0 {
                assert(t == children[n - 1]->Content_0 + inset);
            }
            if t == t0 && t != inset {
                let k = choose|k: int|
                    0 <= k < n - 1 && #[trigger] children[k] is Content && t0 == children[k]->Content_0
                        + inset;
                assert(0 <= k < n && children[k] is Content && t == children[k]->Content_0 + inset);
            }
        } else {
            if t != inset {
                let k = choose|k: int|
                    0 <= k < n - 1 && #[trigger] children[k] is Content && t0 == children[k]->Content_0
                        + inset;
                assert(0 <= k < n && children[k] is Content && t == children[k]->Content_0 + inset);
            }
        }
    }
}

/// The sum of the sizes of the content children among the first `k`.
pub open spec fn content_sum(children: Seq<MeasuredChild>, k: int) -> int
    decreases k,
{
    if k <= 0 {
        0
    } else {
        content_sum(children, k - 1) + match children[k - 1] {
            MeasuredChild::Content(sz) => sz as int,
            _ => 0,
        }
    }
}

/// The number of children among the first `k` that take part in the
/// stack: spacers and content, not hidden or absent ones.
pub open spec fn counted(children: Seq<MeasuredChild>, k: int) -> int
    decreases k,
{
    if k <= 0 {
        0
    } else {
        counted(children, k - 1) + if children[k - 1] is Spacer || children[k - 1] is Content {
            1int
        } else {
            0
        }
    }
}

/// Measured along its own axis, a stack is its insets, plus every content
/// child, plus the spacing between each two counted children (spacers
/// count, hidden and absent children do not).
pub proof fn law_along_measure_is_sum(
    column: bool,
    vertical: bool,
    ins: Insets,
    spacing: int,
    cross_size: int,
    children: Seq<MeasuredChild>,
)
    requires
        column == vertical,
        measure_stack_spec(column, vertical, ins, spacing, cross_size, children) is Some,
    ensures
        ({
            let n = children.len() as int;
            let inset = if vertical { ins.top + ins.bottom } else { ins.left + ins.right };
            measure_stack_spec(column, vertical, ins, spacing, cross_size, children)->0 == inset
                + content_sum(children, n) + if counted(children, n) > 1 {
                spacing * (counted(children, n) - 1)
            } else {
                0
            }
        }),
{
    lemma_along_prefix(children, inset_along(ins, vertical), children.len() as int);
}

proof fn lemma_along_prefix(children: Seq<MeasuredChild>, inset: int, n: int)
    requires
        0 <= n <= children.len(),
        measure_prefix(children, true, inset, n) is Some,
    ensures
        measure_prefix(children, true, inset, n) == Some((inset + content_sum(children, n), counted(children, n))),
    decreases n,
{
    if n > 0 {
        assert(measure_prefix(children, true, inset, n - 1) is Some);
        lemma_along_prefix(children, inset, n - 1);
    }
}

/// Children are measured against the stack's cross size less its insets
/// across the axis, and never against a negative size.
pub proof fn law_inner_cross(ins: Insets, vertical: bool, cross_size: int)
    ensures
        ({
            let across = if vertical { ins.left + ins.right } else { ins.top + ins.bottom };
            &&& fits(across) && fits(cross_size - across) ==> inner_cross_spec(ins, vertical, cross_size)
                == Some(if cross_size - across > 0 { cross_size - across } else { 0 })
            &&& inner_cross_spec(ins, vertical, cross_size) is Some ==> inner_cross_spec(
                ins,
                vertical,
                cross_size,
            )->0 >= 0
        }),
{
}

/// Spacers and fill-remaining children flex; any other child keeps its
/// size, except that with the fill distribution and no flexing child the
/// last one flexes.
pub proof fn law_which_children_flex(vis: Seq<ShownChild>, fill: bool, i: int)
    requires
        0 <= i < vis.len(),
    ensures
        vis[i].info.is_spacer || vis[i].info.fills_remaining ==> flexible(vis, fill, i),
        !vis[i].info.is_spacer && !vis[i].info.fills_remaining && (!fill || i != vis.len() - 1)
            ==> !flexible(vis, fill, i),
        !vis[i].info.is_spacer && !vis[i].info.fills_remaining && (exists|j: int|
            0 <= j < vis.len() && is_flex(#[trigger] vis[j].info)) ==> !flexible(vis, fill, i),
{
}

/// Whether `x` is a modest, non-negative pixel value (at most 65536).
pub open spec fn modest(x: int) -> bool {
    0 <= x <= 0x1_0000
}

proof fn lemma_fixed_total_bounded(
    vis: Seq<ShownChild>,
    measured: Seq<i32>,
    vertical: bool,
    fill: bool,
    k: int,
)
    requires
        0 <= k <= vis.len() <= 256,
        measured.len() == vis.len(),
        forall|i: int| 0 <= i < vis.len() ==> modest(#[trigger] natural(vis, measured, vertical, i)),
    ensures
        fixed_total(vis, measured, vertical, fill, k) is Some,
        0 <= fixed_total(vis, measured, vertical, fill, k)->0 <= k * 0x1_0000,
    decreases k,
{
    if k > 0 {
        lemma_fixed_total_bounded(vis, measured, vertical, fill, k - 1);
        assert(modest(natural(vis, measured, vertical, k - 1)));
    }
}

proof fn lemma_positions_bounded(sz: Seq<int>, start: int, spacing: int, k: int)
    requires
        0 <= k <= sz.len() <= 256,
        modest(start),
        modest(spacing),
        forall|i: int| 0 <= i < sz.len() ==> modest(#[trigger] sz[i]),
    ensures
        position(sz, start, spacing, k) is Some,
        0 <= position(sz, start, spacing, k)->0 <= start + k * 0x2_0000,
    decreases k,
{
    if k > 0 {
        lemma_positions_bounded(sz, start, spacing, k - 1);
        assert(modest(sz[k - 1]));
    }
}

/// A stack of modest size always has a layout: with at most 256 shown
/// children and every size, inset, spacing, fixed size and measured size
/// between 0 and 65536 pixels, the 32-bit arithmetic never overflows.
pub proof fn law_modest_stacks_are_laid_out(
    vis: Seq<ShownChild>,
    measured: Seq<i32>,
    g: StackGeometry,
    fill: bool,
)
    requires
        measured.len() == vis.len(),
        vis.len() <= 256,
        modest(g.width as int) && modest(g.height as int) && modest(g.spacing as int),
        modest(g.top as int) && modest(g.left as int) && modest(g.bottom as int) && modest(g.right as int),
        forall|i: int| 0 <= i < measured.len() ==> modest(#[trigger] measured[i] as int),
        forall|i: int|
            0 <= i < vis.len() ==> (#[trigger] vis[i].info.fixed_width matches Some(w) ==> modest(w as int)),
        forall|i: int|
            0 <= i < vis.len() ==> (#[trigger] vis[i].info.fixed_height matches Some(h) ==> modest(h as int)),
    ensures
        stack_spec(vis, measured, g, fill) is Some,
{
    let n = vis.len() as int;
    let v = g.vertical;
    if n > 0 {
        assert forall|i: int| 0 <= i < vis.len() implies modest(#[trigger] natural(vis, measured, v, i)) by {
            assert(modest(measured[i] as int));
            let c = vis[i].info;
            if v {
                if c.fixed_height is Some {
                    assert(vis[i].info.fixed_height matches Some(h) ==> modest(h as int));
                }
            } else {
                if c.fixed_width is Some {
                    assert(vis[i].info.fixed_width matches Some(w) ==> modest(w as int));
                }
            }
        }
        lemma_fixed_total_bounded(vis, measured, v, fill, n);
        let ft = fixed_total(vis, measured, v, fill, n)->0;
        let sp = g.spacing as int;
        let ts = total_spacing(n, sp);
        assert(0 <= ts <= 256 * 0x1_0000) by (nonlinear_arith)
            requires
                ts == (if n > 1 { sp * (n - 1) } else { 0 }),
                0 <= sp <= 0x1_0000,
                1 <= n <= 256,
        ;
        let room = main_room(g)->0;
        let rem = remaining(room, ft, ts);
        lemma_sizes_sum(vis, measured, v, fill, 0, n);
        let fc = flex_count(vis, fill, n);
        let s = share(rem, fc);
        assert(0 <= rem <= 0x1_0000);
        if fc > 0 {
            assert(0 <= rem / fc <= rem) by (nonlinear_arith)
                requires
                    rem >= 0,
                    fc > 0,
            ;
        }
        let sz = sizes(vis, measured, v, fill, s);
        assert forall|i: int| 0 <= i < sz.len() implies modest(#[trigger] sz[i]) by {
            if !flexible(vis, fill, i) {
                assert(modest(natural(vis, measured, v, i)));
            }
        }
        let start = if v { g.top as int } else { g.left as int };
        lemma_positions_bounded(sz, start, sp, n);
    }
}

/// A stack of modest size can always be measured: with at most 256
/// children and every size, inset and spacing between 0 and 65536 pixels,
/// the 32-bit arithmetic never overflows.
pub proof fn law_modest_stacks_are_measured(
    column: bool,
    vertical: bool,
    ins: Insets,
    spacing: int,
    cross_size: int,
    children: Seq<MeasuredChild>,
)
    requires
        children.len() <= 256,
        modest(spacing) && modest(cross_size),
        modest(ins.top as int) && modest(ins.left as int) && modest(ins.bottom as int) && modest(
            ins.right as int,
        ),
        forall|k: int|
            0 <= k < children.len() ==> (#[trigger] children[k] matches MeasuredChild::Content(sz) ==> modest(
                sz as int,
            )),
    ensures
        measure_stack_spec(column, vertical, ins, spacing, cross_size, children) is Some,
{
    let inset = inset_along(ins, vertical);
    let same = column == vertical;
    lemma_measure_bounded(children, same, inset, children.len() as int);
    let c = (measure_prefix(children, same, inset, children.len() as int)->0).1;
    if same && c > 1 {
        assert(0 <= spacing * (c - 1) <= 256 * 0x1_0000) by (nonlinear_arith)
            requires
                0 <= spacing <= 0x1_0000,
                1 <= c <= 256,
        ;
    }
}

proof fn lemma_measure_bounded(children: Seq<MeasuredChild>, same: bool, inset: int, n: int)
    requires
        0 <= n <= children.len() <= 256,
        0 <= inset <= 0x2_0000,
        forall|k: int|
            0 <= k < children.len() ==> (#[trigger] children[k] matches MeasuredChild::Content(sz) ==> modest(
                sz as int,
            )),
    ensures
        measure_prefix(children, same, inset, n) is Some,
        0 <= (measure_prefix(children, same, inset, n)->0).0 <= inset + n * 0x2_0000,
        0 <= (measure_prefix(children, same, inset, n)->0).1 <= n,
    decreases n,
{
    if n > 0 {
        lemma_measure_bounded(children, same, inset, n - 1);
        assert(children[n - 1] matches MeasuredChild::Content(sz) ==> modest(sz as int));
    }
}

/// Appending a child leaves the measurement of the children before it as
/// it was.
proof fn lemma_measure_prefix_push(
    children: Seq<MeasuredChild>,
    extra: MeasuredChild,
    same: bool,
    inset: int,
    k: int,
)
    requires
        0 <= k <= children.len(),
    ensures
        measure_prefix(children.push(extra), same, inset, k) == measure_prefix(children, same, inset, k),
    decreases k,
{
    if k > 0 {
        lemma_measure_prefix_push(children, extra, same, inset, k - 1);
        assert(children.push(extra)[k - 1] == children[k - 1]);
    }
}

/// Hidden children, and handles with no widget, take no space: adding one
/// to a stack leaves its measurement unchanged.
pub proof fn law_hidden_children_take_no_space(
    column: bool,
    vertical: bool,
    ins: Insets,
    spacing: int,
    cross_size: int,
    children: Seq<MeasuredChild>,
    extra: MeasuredChild,
)
    requires
        extra is Hidden || extra is Absent,
    ensures
        measure_stack_spec(column, vertical, ins, spacing, cross_size, children.push(extra))
            == measure_stack_spec(column, vertical, ins, spacing, cross_size, children),
{
    let same = column == vertical;
    let inset = inset_along(ins, vertical);
    lemma_measure_prefix_push(children, extra, same, inset, children.len() as int);
    assert(children.push(extra)[children.len() as int] == extra);
}

} // verus!
