//! The drum-roll wheel shared by the custom-drawn backends (CoreGraphics on
//! macOS, Cairo on GTK4, GDI on Windows).
//!
//! A wheel holds its rows, the selected row and the last index handed to the
//! app (`reported`). Input moves the selection a whole row at a time; the app
//! is told about a selection only when the wheel settles, once, and never
//! about a selection it set itself or one that populating the wheel made.
use std::collections::HashMap;
use vstd::prelude::*;

use crate::arith::{clamp, div_round, div_toward_zero, round_div, trunc_div};

verus! {

/// `WHEEL_DELTA`: the wheel travel of one mouse notch on Win32.
pub const WHEEL_DELTA: i32 = 120;

/// State of one wheel.
pub struct WheelEntry {
    items: Vec<String>,
    selected: i64,
    reported: i64,
    /// The app's `onChange` closure, `0` when there is none.
    on_change: u64,
    /// Sub-notch wheel travel not yet turned into a step, in `WHEEL_DELTA`
    /// units (Win32). The backends that measure travel in points keep
    /// their own.
    accum: i32,
    /// Bumped on every scroll event, so a queued settle can tell whether it
    /// is still the newest one.
    settle_gen: u64,
}

impl WheelEntry {
    /// The row titles.
    pub closed spec fn titles(&self) -> Seq<Seq<char>> {
        self.items@.map_values(|s: String| s@)
    }

    /// Number of rows.
    pub closed spec fn count(&self) -> int {
        self.items@.len() as int
    }

    /// The selected row, `-1` while the wheel is empty.
    pub closed spec fn selection(&self) -> int {
        self.selected as int
    }

    /// The last index handed to the app (or set as the baseline).
    pub closed spec fn baseline(&self) -> int {
        self.reported as int
    }

    /// The `onChange` closure, `0` for none.
    pub closed spec fn callback(&self) -> u64 {
        self.on_change
    }

    /// Sub-notch travel, in `WHEEL_DELTA` units.
    pub closed spec fn travel(&self) -> int {
        self.accum as int
    }

    /// Generation of the latest scroll event.
    pub closed spec fn generation(&self) -> u64 {
        self.settle_gen
    }

    /// An empty wheel selects nothing; a populated one always selects a row
    /// and has a row as its baseline; the sub-notch travel is less than a
    /// notch.
    pub open spec fn wf(&self) -> bool {
        &&& self.titles().len() == self.count()
        &&& self.count() <= i64::MAX
        &&& self.count() == 0 ==> self.selection() == -1 && self.baseline() == -1
        &&& self.count() > 0 ==> 0 <= self.selection() < self.count() && 0 <= self.baseline()
            < self.count()
        &&& -WHEEL_DELTA < self.travel() < WHEEL_DELTA
    }

    /// A wheel as `create` makes it.
    pub open spec fn is_fresh(&self, on_change: u64) -> bool {
        &&& self.count() == 0
        &&& self.selection() == -1
        &&& self.baseline() == -1
        &&& self.callback() == on_change
        &&& self.travel() == 0
        &&& self.generation() == 0
    }

    /// `new` is `old` with nothing changed but the selection and the
    /// baseline.
    pub open spec fn same_rows(old: WheelEntry, new: WheelEntry) -> bool {
        &&& new.titles() == old.titles()
        &&& new.count() == old.count()
        &&& new.callback() == old.callback()
        &&& new.generation() == old.generation()
    }

    /// What `get_selected` answers for this wheel.
    pub open spec fn answer(&self) -> int {
        if self.count() == 0 {
            -1
        } else {
            self.selection()
        }
    }

    /// Whether the wheel's selection differs from what the app last heard.
    pub open spec fn unsettled(&self) -> bool {
        self.count() > 0 && self.selection() != self.baseline()
    }
}

/// `new` is `old` with `title` appended; populating an empty wheel selects
/// the first row and makes it the baseline, so it never reads as a choice.
pub open spec fn appended(old: WheelEntry, new: WheelEntry, title: Seq<char>) -> bool {
    &&& new.titles() == old.titles().push(title)
    &&& new.count() == old.count() + 1
    &&& new.callback() == old.callback()
    &&& new.travel() == old.travel()
    &&& new.generation() == old.generation()
    &&& if old.selection() < 0 {
        new.selection() == 0 && new.baseline() == 0
    } else {
        new.selection() == old.selection() && new.baseline() == old.baseline()
    }
}

/// The selection after a step of `delta` rows: unchanged for a zero step or
/// an empty wheel, otherwise moved and held to the first and last rows.
pub open spec fn stepped_selection(e: WheelEntry, delta: int) -> int {
    if delta == 0 || e.count() == 0 {
        e.selection()
    } else {
        clamp(e.selection() + delta, 0, e.count() - 1)
    }
}

/// `n` is `o` after the settled selection was handed to the app: if `o`
/// was populated and its selection differed from its baseline, the
/// selection became the baseline and `fire` holds the closure and the index
/// to call it with (nothing when there is no closure); otherwise nothing
/// changed and nothing fires.
pub open spec fn reported(o: WheelEntry, n: WheelEntry, fire: Option<(u64, i64)>) -> bool {
    &&& WheelEntry::same_rows(o, n)
    &&& n.selection() == o.selection()
    &&& n.travel() == o.travel()
    &&& if o.unsettled() {
        &&& n.baseline() == o.selection()
        &&& fire == (if o.callback() == 0 {
            None
        } else {
            Some((o.callback(), o.selection() as i64))
        })
    } else {
        n.baseline() == o.baseline() && fire is None
    }
}

/// The wheels of one backend, by widget handle.
pub struct WheelTable {
    wheels: HashMap<i64, WheelEntry>,
}

impl View for WheelTable {
    type V = Map<i64, WheelEntry>;

    closed spec fn view(&self) -> Map<i64, WheelEntry> {
        self.wheels@
    }
}

impl WheelTable {
    /// Every wheel in the table is well formed.
    pub open spec fn wf(&self) -> bool {
        forall|h: i64| #[trigger] self@.contains_key(h) ==> self@[h].wf()
    }
}

/// `new` equals `old` but for the wheel at `handle`, which it holds.
pub open spec fn only_changed(old: Map<i64, WheelEntry>, new: Map<i64, WheelEntry>, handle: i64) -> bool {
    &&& new.dom() == old.dom().insert(handle)
    &&& forall|h: i64| h != handle && #[trigger] old.contains_key(h) ==> new[h] == old[h]
}

/// An empty table.
pub fn new_table() -> (t: WheelTable)
    ensures
        t@ == Map::<i64, WheelEntry>::empty(),
        t.wf(),
{
    WheelTable { wheels: HashMap::new() }
}

/// Registers a new, empty wheel under `handle` (replacing any wheel there),
/// with `on_change` as its closure (`0` for none).
pub fn create(table: &mut WheelTable, handle: i64, on_change: u64)
    requires
        old(table).wf(),
    ensures
        final(table).wf(),
        only_changed(old(table)@, final(table)@, handle),
        final(table)@[handle].is_fresh(on_change),
{
    let e = WheelEntry {
        items: Vec::new(),
        selected: -1,
        reported: -1,
        on_change,
        accum: 0,
        settle_gen: 0,
    };
    assert(e.titles() =~= Seq::<Seq<char>>::empty());
    assert(e.wf());
    table.wheels.insert(handle, e);
    assert forall|h: i64| #[trigger] table@.contains_key(h) implies table@[h].wf() by {
        if h != handle {
            assert(old(table)@.contains_key(h));
        }
    }
}

/// After taking the wheel at `handle` out of a well-formed table, the
/// wheels left are still well formed.
proof fn lemma_removed_wf(before: &WheelTable, after: &WheelTable, handle: i64)
    requires
        before.wf(),
        after@ == before@.remove(handle),
    ensures
        forall|h: i64| #[trigger] after@.contains_key(h) ==> after@[h].wf(),
{
    assert forall|h: i64| #[trigger] after@.contains_key(h) implies after@[h].wf() by {
        assert(before@.contains_key(h));
    }
}

/// The number of wheels in the table.
pub fn wheel_count(table: &WheelTable) -> (n: usize)
    ensures
        n == table@.len(),
{
    table.wheels.len()
}

/// Puts `e` back under `handle`; the wheels around it are untouched.
fn put_back(table: &mut WheelTable, handle: i64, e: WheelEntry)
    requires
        forall|h: i64| #[trigger] old(table)@.contains_key(h) ==> old(table)@[h].wf(),
        e.wf(),
    ensures
        final(table)@ == old(table)@.insert(handle, e),
        final(table).wf(),
{
    table.wheels.insert(handle, e);
    assert forall|h: i64| #[trigger] table@.contains_key(h) implies table@[h].wf() by {
        if h != handle {
            assert(old(table)@.contains_key(h));
        }
    }
}

/// Appends a row titled `title` to the wheel at `handle`. Populating the
/// wheel is never a user choice: the first row becomes both the selection
/// and the baseline. Returns whether there is a wheel at `handle`; without
/// one nothing changes.
pub fn add_item(table: &mut WheelTable, handle: i64, title: String) -> (found: bool)
    requires
        old(table).wf(),
        old(table)@.contains_key(handle) ==> old(table)@[handle].count() < i64::MAX,
    ensures
        final(table).wf(),
        found == old(table)@.contains_key(handle),
        found ==> final(table)@ == old(table)@.insert(handle, final(table)@[handle])
            && appended(old(table)@[handle], final(table)@[handle], title@),
        !found ==> final(table)@ == old(table)@,
{
    let removed = table.wheels.remove(&handle);
    proof {
        lemma_removed_wf(old(table), table, handle);
    }
    match removed {
        None => false,
        Some(mut e) => {
            assert(old(table)@.contains_key(handle) && old(table)@[handle] == e);
            let ghost old_e = e;
            e.items.push(title);
            if e.selected < 0 {
                e.selected = 0;
                e.reported = 0;
            }
            assert(e.titles() =~= old_e.titles().push(title@));
            put_back(table, handle, e);
            assert(table@ =~= old(table)@.insert(handle, e));
            true
        },
    }
}

/// Selects row `index` of the wheel at `handle` without telling the app:
/// the new selection also becomes the baseline the next settle is compared
/// against, and pending wheel travel is dropped. An index outside the rows
/// (or an unknown handle) changes nothing. Returns whether the selection
/// was applied.
pub fn set_selected(table: &mut WheelTable, handle: i64, index: i64) -> (ok: bool)
    requires
        old(table).wf(),
    ensures
        final(table).wf(),
        ok == (old(table)@.contains_key(handle) && 0 <= index < old(table)@[handle].count()),
        ok ==> final(table)@ == old(table)@.insert(handle, final(table)@[handle])
            && WheelEntry::same_rows(old(table)@[handle], final(table)@[handle])
            && final(table)@[handle].selection() == index
            && final(table)@[handle].baseline() == index
            && final(table)@[handle].travel() == 0,
        !ok ==> final(table)@ == old(table)@,
{
    let removed = table.wheels.remove(&handle);
    proof {
        lemma_removed_wf(old(table), table, handle);
    }
    match removed {
        None => false,
        Some(mut e) => {
            assert(old(table)@.contains_key(handle) && old(table)@[handle] == e);
            if index < 0 || index as u64 >= e.items.len() as u64 {
                put_back(table, handle, e);
                assert(table@ =~= old(table)@);
                false
            } else {
                e.selected = index;
                e.accum = 0;
                e.reported = index;
                put_back(table, handle, e);
                assert(table@ =~= old(table)@.insert(handle, e));
                true
            }
        },
    }
}

/// The selected row of the wheel at `handle`: `-1` for an empty wheel or
/// an unknown handle, never `0`, which would read as "first row selected".
pub fn get_selected(table: &WheelTable, handle: i64) -> (r: i64)
    requires
        table.wf(),
    ensures
        r == (if table@.contains_key(handle) {
            table@[handle].answer()
        } else {
            -1
        }),
        table@.contains_key(handle) && table@[handle].count() > 0 ==> 0 <= r < table@[handle].count(),
{
    match table.wheels.get(&handle) {
        None => -1,
        Some(e) => {
            if e.items.len() == 0 {
                -1
            } else {
                e.selected
            }
        },
    }
}

/// `sel` moved by `delta` and held to `0..=max`, computed without
/// intermediate overflow.
fn clamped_step(sel: i64, delta: i64, max: i64) -> (r: i64)
    requires
        0 <= sel <= max,
    ensures
        r == clamp(sel + delta, 0, max as int),
{
    if delta >= max - sel {
        max
    } else if delta <= -sel {
        0
    } else {
        sel + delta
    }
}

/// Moves the selection of the wheel at `handle` by `delta` rows, held to
/// the first and last rows. Does not report: the app hears about the
/// selection when the wheel settles (`report_if_settled`).
pub fn step_selection(table: &mut WheelTable, handle: i64, delta: i64)
    requires
        old(table).wf(),
    ensures
        final(table).wf(),
        final(table)@.dom() == old(table)@.dom(),
        old(table)@.contains_key(handle) ==> final(table)@ == old(table)@.insert(handle, final(table)@[handle])
            && WheelEntry::same_rows(old(table)@[handle], final(table)@[handle])
            && final(table)@[handle].baseline() == old(table)@[handle].baseline()
            && final(table)@[handle].travel() == old(table)@[handle].travel()
            && final(table)@[handle].selection() == stepped_selection(old(table)@[handle], delta as int),
        !old(table)@.contains_key(handle) ==> final(table)@ == old(table)@,
{
    if delta == 0 {
        return;
    }
    let removed = table.wheels.remove(&handle);
    proof {
        lemma_removed_wf(old(table), table, handle);
    }
    match removed {
        None => {
            assert(table@ =~= old(table)@);
        },
        Some(mut e) => {
            assert(old(table)@.contains_key(handle) && old(table)@[handle] == e);
            if e.items.len() > 0 {
                let max: i64 = e.items.len() as i64 - 1;
                e.selected = clamped_step(e.selected, delta, max);
            }
            put_back(table, handle, e);
            assert(table@ =~= old(table)@.insert(handle, e));
        },
    }
}

/// Hands the settled selection of the wheel at `handle` to the app, once.
/// See `reported`; an unknown handle changes nothing and fires nothing.
pub fn report_if_settled(table: &mut WheelTable, handle: i64) -> (fire: Option<(u64, i64)>)
    requires
        old(table).wf(),
    ensures
        final(table).wf(),
        old(table)@.contains_key(handle) ==> final(table)@ == old(table)@.insert(handle, final(table)@[handle])
            && reported(old(table)@[handle], final(table)@[handle], fire),
        !(old(table)@.contains_key(handle) && old(table)@[handle].unsettled()) ==> final(table)@
            == old(table)@ && fire is None,
{
    let removed = table.wheels.remove(&handle);
    proof {
        lemma_removed_wf(old(table), table, handle);
    }
    match removed {
        None => {
            assert(table@ =~= old(table)@);
            None
        },
        Some(mut e) => {
            assert(old(table)@.contains_key(handle) && old(table)@[handle] == e);
            if e.items.len() == 0 || e.selected == e.reported {
                put_back(table, handle, e);
                assert(table@ =~= old(table)@);
                None
            } else {
                e.reported = e.selected;
                let cb = e.on_change;
                let idx = e.selected;
                put_back(table, handle, e);
                assert(table@ =~= old(table)@.insert(handle, e));
                if cb == 0 {
                    None
                } else {
                    Some((cb, idx))
                }
            }
        },
    }
}

/// Comes to rest: drops the sub-notch travel of the wheel at `handle`, so it
/// never rests between two rows, and reports the settled selection.
pub fn settle(table: &mut WheelTable, handle: i64) -> (fire: Option<(u64, i64)>)
    requires
        old(table).wf(),
    ensures
        final(table).wf(),
        final(table)@.dom() == old(table)@.dom(),
        old(table)@.contains_key(handle) ==> {
            let o = old(table)@[handle];
            let n = final(table)@[handle];
            &&& final(table)@ == old(table)@.insert(handle, n)
            &&& WheelEntry::same_rows(o, n)
            &&& n.selection() == o.selection()
            &&& n.travel() == 0
            &&& n.baseline() == (if o.unsettled() { o.selection() } else { o.baseline() })
            &&& fire == (if o.unsettled() && o.callback() != 0 {
                Some((o.callback(), o.selection() as i64))
            } else {
                None
            })
        },
        !old(table)@.contains_key(handle) ==> final(table)@ == old(table)@ && fire is None,
{
    let removed = table.wheels.remove(&handle);
    proof {
        lemma_removed_wf(old(table), table, handle);
    }
    match removed {
        None => {
            assert(table@ =~= old(table)@);
            None
        },
        Some(mut e) => {
            assert(old(table)@.contains_key(handle) && old(table)@[handle] == e);
            e.accum = 0;
            put_back(table, handle, e);
            assert(table@ =~= old(table)@.insert(handle, e));
            report_if_settled(table, handle)
        },
    }
}

/// Moves the selection of the wheel at `handle` by `delta` rows and reports
/// at once: a click on a visible row or an arrow key lands settled, with no
/// gesture to wait out.
pub fn settled_step(table: &mut WheelTable, handle: i64, delta: i64) -> (fire: Option<(u64, i64)>)
    requires
        old(table).wf(),
    ensures
        final(table).wf(),
        final(table)@.dom() == old(table)@.dom(),
        old(table)@.contains_key(handle) ==> {
            let o = old(table)@[handle];
            let n = final(table)@[handle];
            let sel = stepped_selection(o, delta as int);
            &&& final(table)@ == old(table)@.insert(handle, n)
            &&& WheelEntry::same_rows(o, n)
            &&& n.selection() == sel
            &&& n.travel() == o.travel()
            &&& n.baseline() == (if o.count() > 0 { sel } else { o.baseline() })
            &&& fire == (if o.count() > 0 && sel != o.baseline() && o.callback() != 0 {
                Some((o.callback(), sel as i64))
            } else {
                None
            })
        },
        !old(table)@.contains_key(handle) ==> final(table)@ == old(table)@ && fire is None,
{
    step_selection(table, handle, delta);
    report_if_settled(table, handle)
}

/// A scroll of `raw` wheel units (a signed notch delta in `WHEEL_DELTA`
/// units) on the Win32 wheel at `handle`. The travel accumulates; each
/// whole notch becomes one row step — wheel-forward (positive) toward
/// earlier rows — and the remainder stays for the next event. Returns the
/// number of whole notches (`0` for an unknown handle). Does not report.
pub fn scroll_notches(table: &mut WheelTable, handle: i64, raw: i16) -> (notches: i64)
    requires
        old(table).wf(),
    ensures
        final(table).wf(),
        final(table)@.dom() == old(table)@.dom(),
        old(table)@.contains_key(handle) ==> {
            let o = old(table)@[handle];
            let n = final(table)@[handle];
            let total = o.travel() + raw;
            &&& final(table)@ == old(table)@.insert(handle, n)
            &&& notches == trunc_div(total, WHEEL_DELTA as int)
            &&& n.travel() == total - notches * WHEEL_DELTA
            &&& WheelEntry::same_rows(o, n)
            &&& n.baseline() == o.baseline()
            &&& n.selection() == stepped_selection(o, -notches)
        },
        !old(table)@.contains_key(handle) ==> final(table)@ == old(table)@ && notches == 0,
{
    let removed = table.wheels.remove(&handle);
    proof {
        lemma_removed_wf(old(table), table, handle);
    }
    match removed {
        None => {
            assert(table@ =~= old(table)@);
            0
        },
        Some(mut e) => {
            assert(old(table)@.contains_key(handle) && old(table)@[handle] == e);
            let total: i32 = e.accum + raw as i32;
            let q: i32 = if total >= 0 {
                total / WHEEL_DELTA
            } else {
                let m: i32 = -total;
                let r: i32 = m / WHEEL_DELTA;
                -r
            };
            e.accum = total - q * WHEEL_DELTA;
            put_back(table, handle, e);
            assert(table@ =~= old(table)@.insert(handle, e));
            let steps: i64 = q as i64;
            step_selection(table, handle, -steps);
            steps
        },
    }
}

/// Records a scroll event on the wheel at `handle` and returns its
/// generation, which a debounced settle compares with `settle_is_current`.
/// The counter wraps. An unknown handle changes nothing and yields `0`.
pub fn bump_settle_gen(table: &mut WheelTable, handle: i64) -> (generation: u64)
    requires
        old(table).wf(),
    ensures
        final(table).wf(),
        old(table)@.contains_key(handle) ==> {
            let o = old(table)@[handle];
            let n = final(table)@[handle];
            &&& final(table)@ == old(table)@.insert(handle, n)
            &&& generation == (if o.generation() == u64::MAX { 0 } else { (o.generation() + 1) as u64 })
            &&& n.generation() == generation
            &&& n.titles() == o.titles()
            &&& n.count() == o.count()
            &&& n.callback() == o.callback()
            &&& n.selection() == o.selection()
            &&& n.baseline() == o.baseline()
            &&& n.travel() == o.travel()
        },
        !old(table)@.contains_key(handle) ==> final(table)@ == old(table)@ && generation == 0,
{
    let removed = table.wheels.remove(&handle);
    proof {
        lemma_removed_wf(old(table), table, handle);
    }
    match removed {
        None => {
            assert(table@ =~= old(table)@);
            0
        },
        Some(mut e) => {
            assert(old(table)@.contains_key(handle) && old(table)@[handle] == e);
            e.settle_gen = if e.settle_gen == u64::MAX {
                0
            } else {
                e.settle_gen + 1
            };
            let g = e.settle_gen;
            put_back(table, handle, e);
            assert(table@ =~= old(table)@.insert(handle, e));
            g
        },
    }
}

/// Whether a settle queued at `generation` is still the newest for the
/// wheel at `handle` (an unknown handle counts as generation `0`).
pub fn settle_is_current(table: &WheelTable, handle: i64, generation: u64) -> (current: bool)
    ensures
        current == (generation == (if table@.contains_key(handle) {
            table@[handle].generation()
        } else {
            0
        })),
{
    match table.wheels.get(&handle) {
        None => generation == 0,
        Some(e) => e.settle_gen == generation,
    }
}

/// The rows of the wheel at `handle`, for drawing.
pub fn items(table: &WheelTable, handle: i64) -> (r: Option<&Vec<String>>)
    ensures
        match r {
            Some(v) => table@.contains_key(handle) && v@.map_values(|s: String| s@)
                == table@[handle].titles(),
            None => !table@.contains_key(handle),
        },
{
    match table.wheels.get(&handle) {
        None => None,
        Some(e) => Some(&e.items),
    }
}

/// Height of one row, in pixels.
pub const ROW_HEIGHT: i32 = 28;

/// Rows the wheel shows at rest.
pub const VISIBLE_ROWS: i32 = 5;

/// The number of whole rows between the centre line of a wheel whose client
/// area spans `top..bottom` and a click at `y`, rounded to the nearest row,
/// halves away from the centre.
pub open spec fn click_rows(y: int, top: int, bottom: int) -> int {
    round_div(y - trunc_div(bottom - top, 2), ROW_HEIGHT as int)
}

/// A click at `y` on the Win32 wheel at `handle` whose client area spans
/// `top..bottom`: the clicked visible row becomes the selection, settled at
/// once (see `settled_step`).
pub fn click(table: &mut WheelTable, handle: i64, y: i16, top: i32, bottom: i32) -> (fire: Option<(u64, i64)>)
    requires
        old(table).wf(),
        i32::MIN <= bottom - top <= i32::MAX,
    ensures
        final(table).wf(),
        final(table)@.dom() == old(table)@.dom(),
        old(table)@.contains_key(handle) ==> {
            let o = old(table)@[handle];
            let n = final(table)@[handle];
            let sel = stepped_selection(o, click_rows(y as int, top as int, bottom as int));
            &&& final(table)@ == old(table)@.insert(handle, n)
            &&& WheelEntry::same_rows(o, n)
            &&& n.selection() == sel
            &&& n.travel() == o.travel()
            &&& n.baseline() == (if o.count() > 0 { sel } else { o.baseline() })
            &&& fire == (if o.count() > 0 && sel != o.baseline() && o.callback() != 0 {
                Some((o.callback(), sel as i64))
            } else {
                None
            })
        },
        !old(table)@.contains_key(handle) ==> final(table)@ == old(table)@ && fire is None,
{
    let height: i64 = bottom as i64 - top as i64;
    let centre: i64 = div_toward_zero(height, 2);
    let rows: i64 = div_round(y as i64 - centre, ROW_HEIGHT as i64);
    settled_step(table, handle, rows)
}

/// The row step of a macOS key press: up arrow (126) one row up, down
/// arrow (125) one row down, any other key none.
pub fn mac_key_step(key_code: u16) -> (step: Option<i64>)
    ensures
        step == (if key_code == 126 {
            Some(-1i64)
        } else if key_code == 125 {
            Some(1i64)
        } else {
            None
        }),
{
    if key_code == 126 {
        Some(-1)
    } else if key_code == 125 {
        Some(1)
    } else {
        None
    }
}

/// The row step of a Win32 key press: `VK_UP` (0x26) one row up, `VK_DOWN`
/// (0x28) one row down; any other key is left to the default handler.
pub fn win_key_step(virtual_key: u16) -> (step: Option<i64>)
    ensures
        step == (if virtual_key == 0x26 {
            Some(-1i64)
        } else if virtual_key == 0x28 {
            Some(1i64)
        } else {
            None
        }),
{
    if virtual_key == 0x26 {
        Some(-1)
    } else if virtual_key == 0x28 {
        Some(1)
    } else {
        None
    }
}

/// The signed 16-bit value held in bits 16..32 of a message word: the
/// wheel delta of `WM_MOUSEWHEEL`, the `y` of a mouse message.
pub open spec fn high_word(word: int) -> int {
    let b = (word / 0x1_0000) % 0x1_0000;
    if b >= 0x8000 {
        b - 0x1_0000
    } else {
        b
    }
}

/// The signed high word of a message parameter (see `high_word`).
pub fn signed_high_word(word: u64) -> (v: i16)
    ensures
        v == high_word(word as int),
{
    let b: u64 = (word >> 16) & 0xFFFF;
    assert(b == (word / 0x1_0000) % 0x1_0000) by (bit_vector)
        requires
            b == (word >> 16) & 0xFFFF,
    ;
    if b >= 0x8000 {
        let low: u64 = b - 0x8000;
        (low as i16) - 0x4000 - 0x4000
    } else {
        b as i16
    }
}

/// `NSEventPhaseEnded | NSEventPhaseCancelled`.
pub const PHASE_ENDED_OR_CANCELLED: u64 = 8 | 16;

/// Whether a macOS scroll event ends its gesture: a notched mouse wheel
/// (no phase and no momentum phase) is discrete and settles at once; a
/// trackpad reports Ended or Cancelled in either phase.
pub fn gesture_finished(phase: u64, momentum: u64) -> (finished: bool)
    ensures
        finished == ((phase == 0 && momentum == 0) || phase & PHASE_ENDED_OR_CANCELLED != 0
            || momentum & PHASE_ENDED_OR_CANCELLED != 0),
{
    (phase == 0 && momentum == 0) || phase & PHASE_ENDED_OR_CANCELLED != 0
        || momentum & PHASE_ENDED_OR_CANCELLED != 0
}

/// Rows drawn either side of the selection: half the visible rows, plus
/// one each way for the halves a partial scroll offset brings into view.
pub const HALF_SPAN: i64 = 3;

/// A row the wheel draws: `index` is `offset` rows from the selection.
pub struct VisibleRow {
    pub offset: i64,
    pub index: usize,
}

/// Whether the row `offset` rows from selection `sel` is drawn on a wheel
/// of `count` rows: it is within the span and is a real row.
pub open spec fn shown(sel: int, count: int, offset: int) -> bool {
    -HALF_SPAN <= offset <= HALF_SPAN && 0 <= sel + offset < count
}

/// The `(offset, index)` pairs drawn for offsets below `hi`, in order of
/// offset.
pub open spec fn visible_below(sel: int, count: int, hi: int) -> Seq<(int, int)>
    decreases hi + HALF_SPAN,
{
    if hi <= -HALF_SPAN {
        Seq::empty()
    } else {
        let rest = visible_below(sel, count, hi - 1);
        if shown(sel, count, hi - 1) {
            rest.push((hi - 1, sel + hi - 1))
        } else {
            rest
        }
    }
}

/// The `(offset, index)` pairs a wheel with selection `sel` and `count`
/// rows draws, from the top row down.
pub open spec fn visible(sel: int, count: int) -> Seq<(int, int)> {
    visible_below(sel, count, HALF_SPAN + 1)
}

pub open spec fn row_pair(r: VisibleRow) -> (int, int) {
    (r.offset as int, r.index as int)
}

/// The rows a wheel with selection `selected` and `count` rows draws, from
/// the top down.
pub fn visible_rows(selected: i64, count: usize) -> (rows: Vec<VisibleRow>)
    ensures
        rows@.map_values(|r: VisibleRow| row_pair(r)) == visible(selected as int, count as int),
{
    let mut rows: Vec<VisibleRow> = Vec::new();
    let mut offset: i64 = -HALF_SPAN;
    while offset <= HALF_SPAN
        invariant
            -HALF_SPAN <= offset <= HALF_SPAN + 1,
            rows@.map_values(|r: VisibleRow| row_pair(r)) == visible_below(
                selected as int,
                count as int,
                offset as int,
            ),
        decreases HALF_SPAN + 1 - offset,
    {
        let ghost before = rows@;
        let wide: i128 = selected as i128 + offset as i128;
        let in_range: bool = wide >= 0 && wide < count as i128;
        assert(in_range == shown(selected as int, count as int, offset as int));
        assert(visible_below(selected as int, count as int, offset + 1) == if shown(
            selected as int,
            count as int,
            offset as int,
        ) {
            visible_below(selected as int, count as int, offset as int).push(
                (offset as int, selected + offset),
            )
        } else {
            visible_below(selected as int, count as int, offset as int)
        });
        if in_range {
            rows.push(VisibleRow { offset, index: wide as usize });
            assert(rows@.map_values(|r: VisibleRow| row_pair(r)) =~= before.map_values(
                |r: VisibleRow| row_pair(r),
            ).push((offset as int, selected + offset)));
        }
        offset = offset + 1;
    }
    rows
}

/// A row of a Win32 wheel as painted: its rectangle spans `top..bottom`
/// and its centre is `offset_px` pixels from the wheel's centre line.
pub struct PaintRow {
    pub index: usize,
    pub top: i32,
    pub bottom: i32,
    pub offset_px: i32,
}

/// What a Win32 wheel paints: its rows and the two lines of the selection
/// band.
pub struct WheelPaint {
    pub rows: Vec<PaintRow>,
    pub band_top: i32,
    pub band_bottom: i32,
}

/// Sub-notch travel converted to pixels, toward zero.
pub open spec fn travel_px(travel: int) -> int {
    trunc_div(travel * ROW_HEIGHT, WHEEL_DELTA as int)
}

/// The paint of the Win32 wheel at `handle` in a client area spanning
/// `top..bottom`. Rows are placed from the continuous scroll position —
/// the selected row plus the sub-notch travel — so a precision touchpad
/// turns the column rather than stepping it. `None` for an unknown handle.
pub fn paint_plan(table: &WheelTable, handle: i64, top: i32, bottom: i32) -> (plan: Option<WheelPaint>)
    requires
        table.wf(),
        i32::MIN <= bottom - top <= i32::MAX,
    ensures
        plan is None <==> !table@.contains_key(handle),
        plan matches Some(p) ==> {
            let e = table@[handle];
            let centre = trunc_div(bottom - top, 2);
            let shift = travel_px(e.travel());
            let vis = visible(e.selection(), e.count());
            &&& p.band_top == centre - ROW_HEIGHT / 2
            &&& p.band_bottom == centre + ROW_HEIGHT / 2
            &&& p.rows@.len() == vis.len()
            &&& forall|i: int|
                0 <= i < vis.len() ==> {
                    let r = #[trigger] p.rows@[i];
                    &&& r.index == vis[i].1
                    &&& r.offset_px == vis[i].0 * ROW_HEIGHT + shift
                    &&& r.top == centre + r.offset_px - ROW_HEIGHT / 2
                    &&& r.bottom == r.top + ROW_HEIGHT
                }
        },
{
    let e = match table.wheels.get(&handle) {
        None => {
            return None;
        },
        Some(e) => e,
    };
    assert(table@.contains_key(handle) && table@[handle] == *e);
    let height: i64 = bottom as i64 - top as i64;
    let centre: i32 = div_toward_zero(height, 2) as i32;
    let scaled: i32 = e.accum * ROW_HEIGHT;
    let shift: i32 = if scaled >= 0 {
        scaled / WHEEL_DELTA
    } else {
        let m: i32 = -scaled;
        let r: i32 = m / WHEEL_DELTA;
        -r
    };
    let vis = visible_rows(e.selected, e.items.len());
    let ghost vs = visible(e.selection(), e.count());
    proof {
        lemma_visible_bounds(e.selection(), e.count(), HALF_SPAN + 1);
    }
    let mut rows: Vec<PaintRow> = Vec::new();
    let mut i: usize = 0;
    while i < vis.len()
        invariant
            0 <= i <= vis@.len(),
            vis@.map_values(|r: VisibleRow| row_pair(r)) == vs,
            forall|k: int| 0 <= k < vs.len() ==> -HALF_SPAN <= #[trigger] vs[k].0 <= HALF_SPAN,
            -(i32::MAX / 2) - 1 <= centre <= i32::MAX / 2,
            -ROW_HEIGHT < shift < ROW_HEIGHT,
            rows@.len() == i,
            forall|k: int|
                0 <= k < i ==> {
                    let r = #[trigger] rows@[k];
                    &&& r.index == vs[k].1
                    &&& r.offset_px == vs[k].0 * ROW_HEIGHT + shift
                    &&& r.top == centre + r.offset_px - ROW_HEIGHT / 2
                    &&& r.bottom == r.top + ROW_HEIGHT
                },
        decreases vis@.len() - i,
    {
        let v = &vis[i];
        assert(row_pair(vis@[i as int]) == vs[i as int]);
        assert(-HALF_SPAN <= vs[i as int].0 <= HALF_SPAN);
        let offset_px: i32 = (v.offset as i32) * ROW_HEIGHT + shift;
        let row_top: i32 = centre + offset_px - ROW_HEIGHT / 2;
        rows.push(PaintRow { index: v.index, top: row_top, bottom: row_top + ROW_HEIGHT, offset_px });
        i = i + 1;
    }
    Some(WheelPaint { rows, band_top: centre - ROW_HEIGHT / 2, band_bottom: centre + ROW_HEIGHT / 2 })
}

/// Every drawn row is within the span either side of the selection.
proof fn lemma_visible_bounds(sel: int, count: int, hi: int)
    ensures
        forall|k: int|
            0 <= k < visible_below(sel, count, hi).len() ==> -HALF_SPAN <= #[trigger] visible_below(
                sel,
                count,
                hi,
            )[k].0 <= HALF_SPAN,
    decreases hi + HALF_SPAN,
{
    if hi > -HALF_SPAN {
        lemma_visible_bounds(sel, count, hi - 1);
        let rest = visible_below(sel, count, hi - 1);
        if shown(sel, count, hi - 1) {
            assert forall|k: int|
                0 <= k < visible_below(sel, count, hi).len() implies -HALF_SPAN
                <= #[trigger] visible_below(sel, count, hi)[k].0 <= HALF_SPAN by {
                if k < rest.len() {
                    assert(visible_below(sel, count, hi)[k] == rest[k]);
                }
            }
        }
    }
}

} // verus!
