//! What the wheel promises across calls, proved from the contracts of
//! `wheel`.
use vstd::prelude::*;

use crate::arith::{clamp, round_div, trunc_div};
use crate::wheel::{
    appended, reported, shown, stepped_selection, visible, visible_below, WheelEntry, HALF_SPAN,
    ROW_HEIGHT, WHEEL_DELTA,
};

verus! {

/// `get_selected` answers `-1` exactly when the wheel is empty, and a row
/// of the wheel otherwise.
pub proof fn law_empty_answers_minus_one(e: WheelEntry)
    requires
        e.wf(),
    ensures
        e.answer() == -1 <==> e.count() == 0,
        e.count() > 0 ==> 0 <= e.answer() < e.count(),
{
}

/// What `set_selected` selects is what `get_selected` then answers.
pub proof fn law_read_after_set(o: WheelEntry, n: WheelEntry, index: int)
    requires
        o.wf(),
        n.wf(),
        0 <= index < o.count(),
        WheelEntry::same_rows(o, n),
        n.selection() == index,
        n.baseline() == index,
    ensures
        n.answer() == index,
{
}

/// A programmatic selection never reaches the app: after `set_selected`,
/// the next report hands nothing over and changes nothing.
pub proof fn law_set_selected_is_silent(
    o: WheelEntry,
    n: WheelEntry,
    m: WheelEntry,
    index: int,
    fire: Option<(u64, i64)>,
)
    requires
        o.wf(),
        0 <= index < o.count(),
        WheelEntry::same_rows(o, n),
        n.selection() == index,
        n.baseline() == index,
        reported(n, m, fire),
    ensures
        fire is None,
        m.baseline() == n.baseline(),
        m.selection() == n.selection(),
{
}

/// Populating a wheel is never a user choice: appending a row to a settled
/// wheel leaves it settled, so the next report hands nothing over.
pub proof fn law_add_item_is_silent(
    o: WheelEntry,
    n: WheelEntry,
    title: Seq<char>,
    m: WheelEntry,
    fire: Option<(u64, i64)>,
)
    requires
        o.wf(),
        !o.unsettled(),
        appended(o, n, title),
        reported(n, m, fire),
    ensures
        !n.unsettled(),
        fire is None,
{
}

/// The app hears about a settled selection once: a second report in a row
/// hands nothing over.
pub proof fn law_reports_once(
    o: WheelEntry,
    n: WheelEntry,
    m: WheelEntry,
    first: Option<(u64, i64)>,
    second: Option<(u64, i64)>,
)
    requires
        o.wf(),
        reported(o, n, first),
        reported(n, m, second),
    ensures
        second is None,
        m.baseline() == n.baseline(),
{
}

/// Steps keep the selection on a row, and a zero step is no move.
pub proof fn law_step_stays_on_rows(e: WheelEntry, delta: int)
    requires
        e.wf(),
    ensures
        e.count() > 0 ==> 0 <= stepped_selection(e, delta) < e.count(),
        e.count() == 0 ==> stepped_selection(e, delta) == -1,
        stepped_selection(e, 0) == e.selection(),
{
}

/// Scroll travel is never lost: each whole notch becomes one row step, and
/// what is left is less than a notch and points the same way as the
/// travel it came from.
pub proof fn law_notches_conserve_travel(before: int, raw: int, notches: int, after: int)
    requires
        notches == trunc_div(before + raw, WHEEL_DELTA as int),
        after == before + raw - notches * WHEEL_DELTA,
    ensures
        notches * WHEEL_DELTA + after == before + raw,
        -WHEEL_DELTA < after < WHEEL_DELTA,
        before + raw >= 0 ==> after >= 0 && notches >= 0,
        before + raw <= 0 ==> after <= 0 && notches <= 0,
{
}

/// One notch from rest is exactly one row: a wheel at rest turned by one
/// notch moves its selection one row (toward earlier rows for a forward
/// notch), held to the first and last rows.
pub proof fn law_one_notch_one_row(e: WheelEntry, raw: int, notches: int)
    requires
        e.wf(),
        e.travel() == 0,
        raw == WHEEL_DELTA || raw == -WHEEL_DELTA,
        notches == trunc_div(e.travel() + raw, WHEEL_DELTA as int),
    ensures
        notches == (if raw > 0 { 1int } else { -1int }),
        e.count() > 0 ==> stepped_selection(e, -notches) == clamp(
            e.selection() - notches,
            0,
            e.count() - 1,
        ),
{
}

/// One notch then a settle is exactly one `onChange`, with the new row: a
/// settled wheel at rest, turned one notch forward from a row past the
/// first, reports the row above once it settles.
pub proof fn law_notch_then_settle_reports_once(
    o: WheelEntry,
    scrolled: WheelEntry,
    notches: int,
    settled: WheelEntry,
    fire: Option<(u64, i64)>,
)
    requires
        o.wf(),
        o.travel() == 0,
        !o.unsettled(),
        o.selection() > 0,
        o.callback() != 0,
        // `scroll_notches` with a raw delta of one forward notch:
        notches == trunc_div(o.travel() + WHEEL_DELTA, WHEEL_DELTA as int),
        scrolled.travel() == o.travel() + WHEEL_DELTA - notches * WHEEL_DELTA,
        WheelEntry::same_rows(o, scrolled),
        scrolled.baseline() == o.baseline(),
        scrolled.selection() == stepped_selection(o, -notches),
        // `settle`:
        WheelEntry::same_rows(scrolled, settled),
        settled.selection() == scrolled.selection(),
        settled.travel() == 0,
        settled.baseline() == (if scrolled.unsettled() {
            scrolled.selection()
        } else {
            scrolled.baseline()
        }),
        fire == (if scrolled.unsettled() && scrolled.callback() != 0 {
            Some((scrolled.callback(), scrolled.selection() as i64))
        } else {
            None
        }),
    ensures
        notches == 1,
        fire == Some((o.callback(), (o.selection() - 1) as i64)),
        !settled.unsettled(),
{
}

/// A click on the centre row is no step; a click `k` rows away from the
/// centre line is a step of `k` rows.
pub proof fn law_click_rows(y: int, centre: int, k: int)
    requires
        y == centre + k * ROW_HEIGHT,
    ensures
        round_div(y - centre, ROW_HEIGHT as int) == k,
{
    if k >= 0 {
        assert((2 * (k * 28) + 28) / 56 == k) by (nonlinear_arith);
    } else {
        assert((2 * ((-k) * 28) + 28) / 56 == -k) by (nonlinear_arith)
            requires
                k < 0,
        ;
    }
}

/// Clicks that land inside the selection band step nowhere.
pub proof fn law_click_in_band(y: int, centre: int)
    requires
        -ROW_HEIGHT / 2 < y - centre < ROW_HEIGHT / 2,
    ensures
        round_div(y - centre, ROW_HEIGHT as int) == 0,
{
    let n = y - centre;
    if n >= 0 {
        assert(0 <= 2 * n + 28 < 56);
        assert((2 * n + 28) / 56 == 0);
    } else {
        assert(0 <= 2 * (-n) + 28 < 56);
        assert((2 * (-n) + 28) / 56 == 0);
    }
}

/// A newer scroll event always makes a settle queued by an older one
/// stale: the generation after a bump differs from the one before.
pub proof fn law_newer_scroll_supersedes(before: u64, after: u64)
    requires
        after == (if before == u64::MAX { 0 } else { (before + 1) as u64 }),
    ensures
        after != before,
{
}

/// Each drawn row is a real row of the wheel, `offset` rows from the
/// selection, within the span either side of it, and the rows come from
/// the top down.
pub proof fn law_drawn_rows_are_real(sel: int, count: int)
    ensures
        forall|k: int|
            0 <= k < visible(sel, count).len() ==> shown(sel, count, #[trigger] visible(sel, count)[k].0)
                && visible(sel, count)[k].1 == sel + visible(sel, count)[k].0,
        forall|j: int, k: int|
            0 <= j < k < visible(sel, count).len() ==> visible(sel, count)[j].0 < visible(
                sel,
                count,
            )[k].0,
{
    lemma_below(sel, count, HALF_SPAN + 1);
}

/// The rows drawn below `hi` are shown rows with offsets below `hi`, in
/// increasing order, and every shown offset below `hi` is among them.
proof fn lemma_below(sel: int, count: int, hi: int)
    ensures
        forall|k: int|
            0 <= k < visible_below(sel, count, hi).len() ==> shown(
                sel,
                count,
                #[trigger] visible_below(sel, count, hi)[k].0,
            ) && visible_below(sel, count, hi)[k].1 == sel + visible_below(sel, count, hi)[k].0
                && visible_below(sel, count, hi)[k].0 < hi,
        forall|j: int, k: int|
            0 <= j < k < visible_below(sel, count, hi).len() ==> visible_below(sel, count, hi)[j].0
                < visible_below(sel, count, hi)[k].0,
        forall|off: int|
            shown(sel, count, off) && off < hi ==> exists|k: int|
                0 <= k < visible_below(sel, count, hi).len() && #[trigger] visible_below(
                    sel,
                    count,
                    hi,
                )[k].0 == off,
    decreases hi + HALF_SPAN,
{
    if hi > -HALF_SPAN {
        lemma_below(sel, count, hi - 1);
        let rest = visible_below(sel, count, hi - 1);
        let all = visible_below(sel, count, hi);
        assert forall|k: int| 0 <= k < rest.len() implies all[k] == rest[k] by {}
        assert forall|off: int| shown(sel, count, off) && off < hi implies exists|k: int|
            0 <= k < all.len() && #[trigger] all[k].0 == off by {
            if off < hi - 1 {
                let k = choose|k: int| 0 <= k < rest.len() && #[trigger] rest[k].0 == off;
                assert(all[k] == rest[k]);
            } else {
                assert(all[rest.len() as int].0 == off);
            }
        }
    }
}

/// The selected row of a populated wheel is always drawn, in the band.
pub proof fn law_selection_is_drawn(e: WheelEntry)
    requires
        e.wf(),
        e.count() > 0,
    ensures
        exists|k: int|
            0 <= k < visible(e.selection(), e.count()).len() && #[trigger] visible(
                e.selection(),
                e.count(),
            )[k] == (0int, e.selection()),
{
    lemma_below(e.selection(), e.count(), HALF_SPAN + 1);
    assert(shown(e.selection(), e.count(), 0));
    let k = choose|k: int|
        0 <= k < visible(e.selection(), e.count()).len() && #[trigger] visible(
            e.selection(),
            e.count(),
        )[k].0 == 0;
    assert(visible(e.selection(), e.count())[k] == (0int, e.selection()));
}

} // verus!
