//! Stack placement: children laid along one axis, in order, with spacing
//! between them and insets around them. Children with a fixed size along
//! the axis keep it, the others their intrinsic size; spacers and children
//! that fill the remaining space share what is left equally. With the
//! fill distribution and no such child, the last shown child fills it.
//!
//! The arithmetic is 32-bit, as the window positions are; a layout whose
//! arithmetic would leave that range has no result (`None`).
use vstd::prelude::*;

verus! {

/// What the stack needs to know of a shown child.
#[derive(Clone, Copy)]
pub struct ChildInfo {
    pub is_spacer: bool,
    pub fills_remaining: bool,
    pub fixed_width: Option<i32>,
    pub fixed_height: Option<i32>,
}

/// A child of a container as the layout sees it.
#[derive(Clone, Copy)]
pub enum StackChild {
    /// No widget is registered under the child's handle.
    Absent,
    /// Hidden: moved out of view and given no space.
    Hidden,
    /// Shown, and placed.
    Shown(ChildInfo),
}

/// A shown child and its position among the container's children.
#[derive(Clone, Copy)]
pub struct ShownChild {
    pub index: usize,
    pub info: ChildInfo,
}

/// The container: its size, its insets and the spacing between children.
#[derive(Clone, Copy)]
pub struct StackGeometry {
    pub vertical: bool,
    pub width: i32,
    pub height: i32,
    pub top: i32,
    pub left: i32,
    pub bottom: i32,
    pub right: i32,
    pub spacing: i32,
}

/// Where a child goes, relative to the container.
#[derive(Clone, Copy)]
pub struct Frame {
    pub x: i32,
    pub y: i32,
    pub w: i32,
    pub h: i32,
}

/// Whether `x` is a 32-bit signed value.
pub open spec fn fits(x: int) -> bool {
    i32::MIN <= x <= i32::MAX
}

/// The shown children among the first `k`, in order.
pub open spec fn shown_prefix(children: Seq<StackChild>, k: int) -> Seq<ShownChild>
    decreases k,
{
    if k <= 0 {
        Seq::empty()
    } else {
        let rest = shown_prefix(children, k - 1);
        match children[k - 1] {
            StackChild::Shown(info) => rest.push(ShownChild { index: (k - 1) as usize, info }),
            _ => rest,
        }
    }
}

/// The shown children, in order.
pub open spec fn shown(children: Seq<StackChild>) -> Seq<ShownChild> {
    shown_prefix(children, children.len() as int)
}

/// A spacer, or a child asking for the remaining space.
pub open spec fn is_flex(c: ChildInfo) -> bool {
    c.is_spacer || c.fills_remaining
}

/// With the fill distribution and no flexible child, the last shown child
/// fills the remaining space.
pub open spec fn auto_fills(vis: Seq<ShownChild>, fill: bool) -> bool {
    &&& fill
    &&& vis.len() > 0
    &&& forall|j: int| 0 <= j < vis.len() ==> !is_flex(#[trigger] vis[j].info)
}

/// Whether shown child `i` takes a share of the remaining space.
pub open spec fn flexible(vis: Seq<ShownChild>, fill: bool, i: int) -> bool {
    is_flex(vis[i].info) || (auto_fills(vis, fill) && i == vis.len() - 1)
}

/// The fixed size of a child along the stack's axis, if it has one.
pub open spec fn main_fixed(c: ChildInfo, vertical: bool) -> Option<i32> {
    if vertical {
        c.fixed_height
    } else {
        c.fixed_width
    }
}

/// The fixed size of a child across the stack's axis, if it has one.
pub open spec fn cross_fixed(c: ChildInfo, vertical: bool) -> Option<i32> {
    if vertical {
        c.fixed_width
    } else {
        c.fixed_height
    }
}

/// The size along the axis of a child that does not flex: its fixed size,
/// else its measured intrinsic size.
pub open spec fn natural(vis: Seq<ShownChild>, measured: Seq<i32>, vertical: bool, i: int) -> int {
    match main_fixed(vis[i].info, vertical) {
        Some(f) => f as int,
        None => measured[i] as int,
    }
}

/// The number of flexible children among the first `k`.
pub open spec fn flex_count(vis: Seq<ShownChild>, fill: bool, k: int) -> int
    decreases k,
{
    if k <= 0 {
        0
    } else {
        flex_count(vis, fill, k - 1) + if flexible(vis, fill, k - 1) {
            1int
        } else {
            0
        }
    }
}

/// The running total of the sizes of the children among the first `k`
/// that do not flex; `None` once it leaves the 32-bit range.
pub open spec fn fixed_total(
    vis: Seq<ShownChild>,
    measured: Seq<i32>,
    vertical: bool,
    fill: bool,
    k: int,
) -> Option<int>
    decreases k,
{
    if k <= 0 {
        Some(0)
    } else {
        match fixed_total(vis, measured, vertical, fill, k - 1) {
            None => None,
            Some(t) => if flexible(vis, fill, k - 1) {
                Some(t)
            } else if fits(t + natural(vis, measured, vertical, k - 1)) {
                Some(t + natural(vis, measured, vertical, k - 1))
            } else {
                None
            },
        }
    }
}

/// The position along the axis after the first `k` children, starting at
/// `start`, each child followed by `spacing`; `None` once a step or a
/// position leaves the 32-bit range.
pub open spec fn position(sizes: Seq<int>, start: int, spacing: int, k: int) -> Option<int>
    decreases k,
{
    if k <= 0 {
        Some(start)
    } else {
        match position(sizes, start, spacing, k - 1) {
            None => None,
            Some(p) => if fits(sizes[k - 1] + spacing) && fits(p + sizes[k - 1] + spacing) {
                Some(p + sizes[k - 1] + spacing)
            } else {
                None
            },
        }
    }
}

/// `a - b - c`, when both differences are 32-bit values.
pub open spec fn sub2(a: int, b: int, c: int) -> Option<int> {
    if fits(a - b) && fits(a - b - c) {
        Some(a - b - c)
    } else {
        None
    }
}

/// The room along the axis inside the insets.
pub open spec fn main_room(g: StackGeometry) -> Option<int> {
    if g.vertical {
        sub2(g.height as int, g.top as int, g.bottom as int)
    } else {
        sub2(g.width as int, g.left as int, g.right as int)
    }
}

/// The room across the axis inside the insets.
pub open spec fn cross_room(g: StackGeometry) -> Option<int> {
    if g.vertical {
        sub2(g.width as int, g.left as int, g.right as int)
    } else {
        sub2(g.height as int, g.top as int, g.bottom as int)
    }
}

/// The spacing between `n` children.
pub open spec fn total_spacing(n: int, spacing: int) -> int {
    if n > 1 {
        spacing * (n - 1)
    } else {
        0
    }
}

/// The space left for the flexible children: the room along the axis less
/// the fixed sizes and the spacing, and never negative.
pub open spec fn remaining(room: int, fixed: int, spacing: int) -> int {
    if room - fixed - spacing > 0 {
        room - fixed - spacing
    } else {
        0
    }
}

/// Each flexible child's share of the remaining space.
pub open spec fn share(rem: int, flex: int) -> int {
    if flex > 0 {
        rem / flex
    } else {
        0
    }
}

/// The size along the axis of every shown child, given the share.
pub open spec fn sizes(vis: Seq<ShownChild>, measured: Seq<i32>, vertical: bool, fill: bool, s: int) -> Seq<int> {
    Seq::new(
        vis.len(),
        |i: int|
            if flexible(vis, fill, i) {
                s
            } else {
                natural(vis, measured, vertical, i)
            },
    )
}

/// The frame of shown child `i` at position `pos` with main size `size`;
/// across the axis it keeps its fixed size or spans the room.
pub open spec fn frame_at(g: StackGeometry, c: ChildInfo, cross: int, pos: int, size: int) -> Frame {
    let across = match cross_fixed(c, g.vertical) {
        Some(f) => f as int,
        None => cross,
    };
    if g.vertical {
        Frame { x: g.left, y: pos as i32, w: across as i32, h: size as i32 }
    } else {
        Frame { x: pos as i32, y: g.top, w: size as i32, h: across as i32 }
    }
}

/// The frames of the shown children `vis` of a stack with geometry `g`,
/// given the measured intrinsic sizes of the children that need one;
/// `None` when the 32-bit arithmetic would overflow.
pub open spec fn stack_spec(vis: Seq<ShownChild>, measured: Seq<i32>, g: StackGeometry, fill: bool) -> Option<Seq<Frame>> {
    let v = g.vertical;
    let n = vis.len() as int;
    if main_room(g) is None || cross_room(g) is None {
        None
    } else if n == 0 {
        Some(Seq::empty())
    } else if !fits(total_spacing(n, g.spacing as int)) {
        None
    } else {
        match fixed_total(vis, measured, v, fill, n) {
            None => None,
            Some(ft) => {
                let room = main_room(g)->0;
                if !fits(room - ft) || !fits(room - ft - total_spacing(n, g.spacing as int)) {
                    None
                } else {
                    let s = share(
                        remaining(room, ft, total_spacing(n, g.spacing as int)),
                        flex_count(vis, fill, n),
                    );
                    let sz = sizes(vis, measured, v, fill, s);
                    let start = if v { g.top as int } else { g.left as int };
                    if position(sz, start, g.spacing as int, n) is None {
                        None
                    } else {
                        Some(
                            Seq::new(
                                vis.len(),
                                |i: int|
                                    frame_at(
                                        g,
                                        vis[i].info,
                                        cross_room(g)->0,
                                        position(sz, start, g.spacing as int, i)->0,
                                        sz[i],
                                    ),
                            ),
                        )
                    }
                }
            },
        }
    }
}

/// `x` as a 32-bit value, when it is one.
fn narrow(x: i64) -> (r: Option<i32>)
    ensures
        r == (if fits(x as int) {
            Some(x as i32)
        } else {
            None
        }),
{
    if x < i32::MIN as i64 || x > i32::MAX as i64 {
        None
    } else {
        Some(x as i32)
    }
}

/// The room across the axis inside the insets, which children are measured
/// against (`None` when the arithmetic leaves the 32-bit range).
pub fn stack_cross_room(g: StackGeometry) -> (r: Option<i32>)
    ensures
        match r {
            None => cross_room(g) is None,
            Some(x) => cross_room(g) == Some(x as int),
        },
{
    let (a, b, c) = if g.vertical {
        (g.width, g.left, g.right)
    } else {
        (g.height, g.top, g.bottom)
    };
    let d = match narrow(a as i64 - b as i64) {
        None => {
            return None;
        },
        Some(x) => x,
    };
    narrow(d as i64 - c as i64)
}

/// The shown children of a container, in order, with their positions.
pub fn shown_children(children: &Vec<StackChild>) -> (r: Vec<ShownChild>)
    ensures
        r@ == shown(children@),
{
    let mut r: Vec<ShownChild> = Vec::new();
    let mut k: usize = 0;
    while k < children.len()
        invariant
            k <= children@.len(),
            r@ == shown_prefix(children@, k as int),
        decreases children@.len() - k,
    {
        match children[k] {
            StackChild::Shown(info) => {
                r.push(ShownChild { index: k, info });
            },
            _ => {},
        }
        k = k + 1;
    }
    r
}

/// Whether any of the first `k` shown children flexes.
pub open spec fn any_flex(vis: Seq<ShownChild>, k: int) -> bool {
    exists|j: int| 0 <= j < k && is_flex(#[trigger] vis[j].info)
}

/// Whether the last shown child fills the remaining space (see
/// `auto_fills`).
fn last_fills(vis: &Vec<ShownChild>, fill: bool) -> (b: bool)
    ensures
        b == auto_fills(vis@, fill),
{
    let mut k: usize = 0;
    let mut found: bool = false;
    while k < vis.len()
        invariant
            k <= vis@.len(),
            found == any_flex(vis@, k as int),
        decreases vis@.len() - k,
    {
        if vis[k].info.is_spacer || vis[k].info.fills_remaining {
            found = true;
        }
        proof {
            if !found {
                assert forall|j: int| 0 <= j < k + 1 implies !is_flex(#[trigger] vis@[j].info) by {
                    if j < k {
                        assert(!any_flex(vis@, k as int));
                    }
                }
            }
        }
        k = k + 1;
    }
    fill && vis.len() > 0 && !found
}

/// Which shown children need their intrinsic size measured: those that do
/// not flex and have no fixed size along the axis.
pub fn needs_measure(vis: &Vec<ShownChild>, vertical: bool, fill: bool) -> (r: Vec<bool>)
    ensures
        r@.len() == vis@.len(),
        forall|i: int|
            0 <= i < vis@.len() ==> #[trigger] r@[i] == (!flexible(vis@, fill, i) && main_fixed(
                vis@[i].info,
                vertical,
            ) is None),
{
    let auto = last_fills(vis, fill);
    let mut r: Vec<bool> = Vec::new();
    let mut i: usize = 0;
    while i < vis.len()
        invariant
            i <= vis@.len(),
            auto == auto_fills(vis@, fill),
            r@.len() == i,
            forall|k: int|
                0 <= k < i ==> #[trigger] r@[k] == (!flexible(vis@, fill, k) && main_fixed(
                    vis@[k].info,
                    vertical,
                ) is None),
        decreases vis@.len() - i,
    {
        let c = vis[i].info;
        let flex = c.is_spacer || c.fills_remaining || (auto && i == vis.len() - 1);
        let fixed = if vertical {
            c.fixed_height.is_some()
        } else {
            c.fixed_width.is_some()
        };
        r.push(!flex && !fixed);
        i = i + 1;
    }
    r
}

/// Lays out the shown children `vis` of a stack with geometry `g`.
/// `measured[i]` is the intrinsic size along the axis of shown child `i`
/// where `needs_measure` asks for one (ignored elsewhere); `fill` is
/// whether the stack uses the fill distribution. The frames are in the
/// order of `vis`; `None` when the 32-bit arithmetic would overflow.
pub fn layout_stack(vis: &Vec<ShownChild>, measured: &Vec<i32>, g: StackGeometry, fill: bool) -> (r: Option<Vec<Frame>>)
    requires
        measured@.len() == vis@.len(),
        vis@.len() < i32::MAX,
    ensures
        match r {
            None => stack_spec(vis@, measured@, g, fill) is None,
            Some(f) => stack_spec(vis@, measured@, g, fill) == Some(f@),
        },
{
    let v = g.vertical;
    let (main_a, main_b, main_c, cross_a, cross_b, cross_c) = if v {
        (g.height, g.top, g.bottom, g.width, g.left, g.right)
    } else {
        (g.width, g.left, g.right, g.height, g.top, g.bottom)
    };
    let m1 = match narrow(main_a as i64 - main_b as i64) {
        None => {
            return None;
        },
        Some(x) => x,
    };
    let room = match narrow(m1 as i64 - main_c as i64) {
        None => {
            return None;
        },
        Some(x) => x,
    };
    let c1 = match narrow(cross_a as i64 - cross_b as i64) {
        None => {
            return None;
        },
        Some(x) => x,
    };
    let cross = match narrow(c1 as i64 - cross_c as i64) {
        None => {
            return None;
        },
        Some(x) => x,
    };
    assert(main_room(g) == Some(room as int));
    assert(cross_room(g) == Some(cross as int));
    let n = vis.len();
    if n == 0 {
        let empty: Vec<Frame> = Vec::new();
        assert(empty@ =~= Seq::<Frame>::empty());
        return Some(empty);
    }
    let spacing_total = if n > 1 {
        let gaps: i64 = n as i64 - 1;
        assert(-0x8000_0000 * 0x8000_0000 <= g.spacing as i64 * gaps <= 0x8000_0000 * 0x8000_0000)
            by (nonlinear_arith)
            requires
                0 <= gaps <= 0x8000_0000,
                -0x8000_0000 <= g.spacing <= 0x8000_0000,
        ;
        match narrow(g.spacing as i64 * gaps) {
            None => {
                return None;
            },
            Some(x) => x,
        }
    } else {
        0
    };
    assert(spacing_total == total_spacing(n as int, g.spacing as int));
    let auto = last_fills(vis, fill);
    // The sizes of the children that keep their size, and the flexible ones.
    let mut fixed: i32 = 0;
    let mut flex: i32 = 0;
    let mut i: usize = 0;
    while i < n
        invariant
            n == vis@.len(),
            0 < n < i32::MAX,
            measured@.len() == n,
            i <= n,
            main_room(g) == Some(room as int),
            cross_room(g) == Some(cross as int),
            spacing_total == total_spacing(n as int, g.spacing as int),
            fits(spacing_total as int),
            v == g.vertical,
            auto == auto_fills(vis@, fill),
            fixed_total(vis@, measured@, v, fill, i as int) == Some(fixed as int),
            flex == flex_count(vis@, fill, i as int),
            0 <= flex <= i,
        decreases n - i,
    {
        let c = vis[i].info;
        if c.is_spacer || c.fills_remaining || (auto && i == n - 1) {
            flex = flex + 1;
        } else {
            let own: i32 = match (if v {
                c.fixed_height
            } else {
                c.fixed_width
            }) {
                Some(f) => f,
                None => measured[i],
            };
            assert(own == natural(vis@, measured@, v, i as int));
            fixed = match narrow(fixed as i64 + own as i64) {
                None => {
                    proof {
                        assert(fixed_total(vis@, measured@, v, fill, i as int + 1) is None);
                        lemma_fixed_stuck(vis@, measured@, v, fill, i as int + 1, n as int);
                    }
                    return None;
                },
                Some(x) => x,
            };
        }
        i = i + 1;
    }
    let r1 = match narrow(room as i64 - fixed as i64) {
        None => {
            return None;
        },
        Some(x) => x,
    };
    let r2 = match narrow(r1 as i64 - spacing_total as i64) {
        None => {
            return None;
        },
        Some(x) => x,
    };
    let rem: i32 = if r2 > 0 {
        r2
    } else {
        0
    };
    let each: i32 = if flex > 0 {
        rem / flex
    } else {
        0
    };
    let ghost s = share(remaining(room as int, fixed as int, spacing_total as int), flex as int);
    assert(each == s);
    let ghost sz = sizes(vis@, measured@, v, fill, s);
    let ghost start: int = if v {
        g.top as int
    } else {
        g.left as int
    };
    let mut pos: i32 = if v {
        g.top
    } else {
        g.left
    };
    let mut frames: Vec<Frame> = Vec::new();
    let mut k: usize = 0;
    while k < n
        invariant
            n == vis@.len(),
            0 < n,
            measured@.len() == n,
            k <= n,
            main_room(g) == Some(room as int),
            cross_room(g) == Some(cross as int),
            spacing_total == total_spacing(n as int, g.spacing as int),
            fits(spacing_total as int),
            fixed_total(vis@, measured@, v, fill, n as int) == Some(fixed as int),
            fits(room - fixed),
            fits(room - fixed - spacing_total),
            s == share(
                remaining(room as int, fixed as int, spacing_total as int),
                flex_count(vis@, fill, n as int),
            ),
            auto == auto_fills(vis@, fill),
            each == s,
            sz == sizes(vis@, measured@, v, fill, s),
            start == (if v {
                g.top as int
            } else {
                g.left as int
            }),
            v == g.vertical,
            cross_room(g) == Some(cross as int),
            position(sz, start, g.spacing as int, k as int) == Some(pos as int),
            frames@.len() == k,
            forall|j: int|
                0 <= j < k ==> #[trigger] frames@[j] == frame_at(
                    g,
                    vis@[j].info,
                    cross as int,
                    position(sz, start, g.spacing as int, j)->0,
                    sz[j],
                ),
        decreases n - k,
    {
        let c = vis[k].info;
        let size: i32 = if c.is_spacer || c.fills_remaining || (auto && k == n - 1) {
            each
        } else {
            match (if v {
                c.fixed_height
            } else {
                c.fixed_width
            }) {
                Some(f) => f,
                None => measured[k],
            }
        };
        assert(size == sz[k as int]);
        let across: i32 = match (if v {
            c.fixed_width
        } else {
            c.fixed_height
        }) {
            Some(f) => f,
            None => cross,
        };
        let frame = if v {
            Frame { x: g.left, y: pos, w: across, h: size }
        } else {
            Frame { x: pos, y: g.top, w: size, h: across }
        };
        frames.push(frame);
        let step = match narrow(size as i64 + g.spacing as i64) {
            None => {
                proof {
                    assert(position(sz, start, g.spacing as int, k as int + 1) is None);
                    lemma_position_stuck(sz, start, g.spacing as int, k as int + 1, n as int);
                }
                return None;
            },
            Some(x) => x,
        };
        pos = match narrow(pos as i64 + step as i64) {
            None => {
                proof {
                    assert(position(sz, start, g.spacing as int, k as int + 1) is None);
                    lemma_position_stuck(sz, start, g.spacing as int, k as int + 1, n as int);
                }
                return None;
            },
            Some(x) => x,
        };
        k = k + 1;
    }
    assert(frames@ =~= Seq::new(
        vis@.len(),
        |i: int|
            frame_at(
                g,
                vis@[i].info,
                cross as int,
                position(sz, start, g.spacing as int, i)->0,
                sz[i],
            ),
    ));
    Some(frames)
}

/// A child as the stack measurement sees it.
#[derive(Clone, Copy)]
pub enum MeasuredChild {
    /// No widget is registered under the child's handle.
    Absent,
    /// Hidden: takes no space and is not counted.
    Hidden,
    /// A spacer: counted for spacing, but adds no size.
    Spacer,
    /// Any other shown child, with its intrinsic size along the measured
    /// axis.
    Content(i32),
}

/// Insets of a stack: top, left, bottom, right.
#[derive(Clone, Copy)]
pub struct Insets {
    pub top: i32,
    pub left: i32,
    pub bottom: i32,
    pub right: i32,
}

/// The insets along the measured axis (`vertical` for height).
pub open spec fn inset_along(ins: Insets, vertical: bool) -> int {
    if vertical {
        ins.top + ins.bottom
    } else {
        ins.left + ins.right
    }
}

/// The insets across the measured axis.
pub open spec fn inset_across(ins: Insets, vertical: bool) -> int {
    if vertical {
        ins.left + ins.right
    } else {
        ins.top + ins.bottom
    }
}

/// The cross size children are measured against: the stack's cross size
/// inside its insets, never negative; `None` when the arithmetic leaves the
/// 32-bit range.
pub open spec fn inner_cross_spec(ins: Insets, vertical: bool, cross_size: int) -> Option<int> {
    if !fits(inset_across(ins, vertical)) || !fits(cross_size - inset_across(ins, vertical)) {
        None
    } else if cross_size - inset_across(ins, vertical) > 0 {
        Some(cross_size - inset_across(ins, vertical))
    } else {
        Some(0)
    }
}

/// The measured size and the count of counted children after the first
/// `k` children: along the stack's own axis the sizes add up, across it
/// the largest child (with the insets) wins; `None` once the arithmetic
/// leaves the 32-bit range.
pub open spec fn measure_prefix(children: Seq<MeasuredChild>, same: bool, inset: int, k: int) -> Option<(int, int)>
    decreases k,
{
    if k <= 0 {
        Some((inset, 0))
    } else {
        match measure_prefix(children, same, inset, k - 1) {
            None => None,
            Some((t, c)) => match children[k - 1] {
                MeasuredChild::Absent | MeasuredChild::Hidden => Some((t, c)),
                MeasuredChild::Spacer => Some((t, c + 1)),
                MeasuredChild::Content(sz) => if same {
                    if fits(t + sz) {
                        Some((t + sz, c + 1))
                    } else {
                        None
                    }
                } else if fits(sz + inset) {
                    Some((if t >= sz + inset { t } else { sz + inset }, c + 1))
                } else {
                    None
                },
            },
        }
    }
}

/// The intrinsic size along the measured axis (`vertical` for height) of a
/// column (`column`) or row whose children measure `children`: the insets
/// plus, along the stack's axis, the children and the spacing between the
/// counted ones, and across it the largest child. `None` when the 32-bit
/// arithmetic would overflow.
pub open spec fn measure_stack_spec(
    column: bool,
    vertical: bool,
    ins: Insets,
    spacing: int,
    cross_size: int,
    children: Seq<MeasuredChild>,
) -> Option<int> {
    let same = column == vertical;
    let inset = inset_along(ins, vertical);
    if !fits(inset) || inner_cross_spec(ins, vertical, cross_size) is None {
        None
    } else {
        match measure_prefix(children, same, inset, children.len() as int) {
            None => None,
            Some((t, c)) => if same && c > 1 {
                if fits(spacing * (c - 1)) && fits(t + spacing * (c - 1)) {
                    Some(t + spacing * (c - 1))
                } else {
                    None
                }
            } else {
                Some(t)
            },
        }
    }
}

/// The cross size to measure the children of a stack against (see
/// `inner_cross_spec`).
pub fn inner_cross(ins: Insets, vertical: bool, cross_size: i32) -> (r: Option<i32>)
    ensures
        match r {
            None => inner_cross_spec(ins, vertical, cross_size as int) is None,
            Some(x) => inner_cross_spec(ins, vertical, cross_size as int) == Some(x as int),
        },
{
    let across = match narrow(if vertical {
        ins.left as i64 + ins.right as i64
    } else {
        ins.top as i64 + ins.bottom as i64
    }) {
        None => {
            return None;
        },
        Some(x) => x,
    };
    let inner = match narrow(cross_size as i64 - across as i64) {
        None => {
            return None;
        },
        Some(x) => x,
    };
    if inner > 0 {
        Some(inner)
    } else {
        Some(0)
    }
}

/// The intrinsic size of a stack along the measured axis (see
/// `measure_stack_spec`). The children's sizes are measured against
/// `inner_cross`.
pub fn measure_stack(
    column: bool,
    vertical: bool,
    ins: Insets,
    spacing: i32,
    cross_size: i32,
    children: &Vec<MeasuredChild>,
) -> (r: Option<i32>)
    requires
        children@.len() < i32::MAX,
    ensures
        match r {
            None => measure_stack_spec(column, vertical, ins, spacing as int, cross_size as int, children@)
                is None,
            Some(x) => measure_stack_spec(
                column,
                vertical,
                ins,
                spacing as int,
                cross_size as int,
                children@,
            ) == Some(x as int),
        },
{
    let same = column == vertical;
    let inset = match narrow(if vertical {
        ins.top as i64 + ins.bottom as i64
    } else {
        ins.left as i64 + ins.right as i64
    }) {
        None => {
            return None;
        },
        Some(x) => x,
    };
    if inner_cross(ins, vertical, cross_size).is_none() {
        return None;
    }
    let mut total: i32 = inset;
    let mut count: i32 = 0;
    let mut k: usize = 0;
    while k < children.len()
        invariant
            k <= children@.len() < i32::MAX,
            0 <= count <= k,
            same == (column == vertical),
            inset == inset_along(ins, vertical),
            fits(inset as int),
            inner_cross_spec(ins, vertical, cross_size as int) is Some,
            measure_prefix(children@, same, inset as int, k as int) == Some((total as int, count as int)),
        decreases children@.len() - k,
    {
        match children[k] {
            MeasuredChild::Absent | MeasuredChild::Hidden => {},
            MeasuredChild::Spacer => {
                count = count + 1;
            },
            MeasuredChild::Content(sz) => {
                if same {
                    total = match narrow(total as i64 + sz as i64) {
                        None => {
                            proof {
                                lemma_measure_stuck(children@, same, inset as int, k as int + 1, children@.len() as int);
                            }
                            return None;
                        },
                        Some(x) => x,
                    };
                } else {
                    let with_inset = match narrow(sz as i64 + inset as i64) {
                        None => {
                            proof {
                                lemma_measure_stuck(children@, same, inset as int, k as int + 1, children@.len() as int);
                            }
                            return None;
                        },
                        Some(x) => x,
                    };
                    if with_inset > total {
                        total = with_inset;
                    }
                }
                count = count + 1;
            },
        }
        k = k + 1;
    }
    if same && count > 1 {
        let gaps: i64 = count as i64 - 1;
        assert(-0x8000_0000 * 0x8000_0000 <= spacing as i64 * gaps <= 0x8000_0000 * 0x8000_0000)
            by (nonlinear_arith)
            requires
                0 <= gaps <= 0x8000_0000,
                -0x8000_0000 <= spacing <= 0x8000_0000,
        ;
        let gap_total = match narrow(spacing as i64 * gaps) {
            None => {
                return None;
            },
            Some(x) => x,
        };
        narrow(total as i64 + gap_total as i64)
    } else {
        Some(total)
    }
}

/// Once the measurement is out of range, it stays out.
proof fn lemma_measure_stuck(children: Seq<MeasuredChild>, same: bool, inset: int, k: int, n: int)
    requires
        measure_prefix(children, same, inset, k) is None,
        k <= n,
    ensures
        measure_prefix(children, same, inset, n) is None,
    decreases n - k,
{
    if k < n {
        lemma_measure_stuck(children, same, inset, k + 1, n);
    }
}

/// The frame of a scroll view's content: the full width, and its measured
/// height but at least the viewport's (the viewport's when the content has
/// no measurement).
pub fn scroll_content(width: i32, height: i32, measured: Option<i32>) -> (f: Frame)
    ensures
        f.x == 0 && f.y == 0 && f.w == width,
        f.h == (match measured {
            Some(m) => if m > height {
                m
            } else {
                height
            },
            None => height,
        }),
{
    let h = match measured {
        Some(m) => if m > height {
            m
        } else {
            height
        },
        None => height,
    };
    Frame { x: 0, y: 0, w: width, h }
}

/// Once the running total is out of range, it stays out.
proof fn lemma_fixed_stuck(vis: Seq<ShownChild>, measured: Seq<i32>, vertical: bool, fill: bool, k: int, n: int)
    requires
        fixed_total(vis, measured, vertical, fill, k) is None,
        k <= n,
    ensures
        fixed_total(vis, measured, vertical, fill, n) is None,
    decreases n - k,
{
    if k < n {
        lemma_fixed_stuck(vis, measured, vertical, fill, k + 1, n);
    }
}

/// Once a position is out of range, every later one is too.
proof fn lemma_position_stuck(sizes: Seq<int>, start: int, spacing: int, k: int, n: int)
    requires
        position(sizes, start, spacing, k) is None,
        k <= n,
    ensures
        position(sizes, start, spacing, n) is None,
    decreases n - k,
{
    if k < n {
        lemma_position_stuck(sizes, start, spacing, k + 1, n);
    }
}

} // verus!
