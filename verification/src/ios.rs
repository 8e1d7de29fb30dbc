//! The iOS wheel: a one-component `UIPickerView`, whose data source and
//! delegate answer from this state. UIKit supplies the snapping and does
//! not post a selection for a programmatic move, so there is no baseline
//! to keep: the app hears about every row the user selects.
use std::collections::HashMap;
use vstd::prelude::*;

verus! {

/// State of one iOS wheel.
pub struct IosWheel {
    items: Vec<String>,
    selected: i64,
    /// The app's `onChange` closure, `0` when there is none.
    on_change: u64,
}

impl IosWheel {
    /// The row titles.
    pub closed spec fn titles(&self) -> Seq<Seq<char>> {
        self.items@.map_values(|s: String| s@)
    }

    /// Number of rows.
    pub closed spec fn count(&self) -> int {
        self.items@.len() as int
    }

    /// The selected row, `-1` while the wheel is empty.
    pub closed spec fn selection(&self) -> int {
        self.selected as int
    }

    /// The `onChange` closure, `0` for none.
    pub closed spec fn callback(&self) -> u64 {
        self.on_change
    }

    /// An empty wheel selects nothing; a populated one selects a row.
    pub open spec fn wf(&self) -> bool {
        &&& self.titles().len() == self.count()
        &&& self.count() <= i64::MAX
        &&& self.count() == 0 ==> self.selection() == -1
        &&& self.count() > 0 ==> 0 <= self.selection() < self.count()
    }

    /// What `get_selected` answers for this wheel.
    pub open spec fn answer(&self) -> int {
        if self.count() == 0 {
            -1
        } else {
            self.selection()
        }
    }
}

/// The iOS wheels, by widget handle.
pub struct IosWheelTable {
    wheels: HashMap<i64, IosWheel>,
}

impl View for IosWheelTable {
    type V = Map<i64, IosWheel>;

    closed spec fn view(&self) -> Map<i64, IosWheel> {
        self.wheels@
    }
}

impl IosWheelTable {
    /// Every wheel in the table is well formed.
    pub open spec fn wf(&self) -> bool {
        forall|h: i64| #[trigger] self@.contains_key(h) ==> self@[h].wf()
    }
}

/// An empty table.
pub fn new_table() -> (t: IosWheelTable)
    ensures
        t@ == Map::<i64, IosWheel>::empty(),
        t.wf(),
{
    IosWheelTable { wheels: HashMap::new() }
}

proof fn lemma_removed_wf(before: &IosWheelTable, after: &IosWheelTable, handle: i64)
    requires
        before.wf(),
        after@ == before@.remove(handle),
    ensures
        forall|h: i64| #[trigger] after@.contains_key(h) ==> after@[h].wf(),
{
    assert forall|h: i64| #[trigger] after@.contains_key(h) implies after@[h].wf() by {
        assert(before@.contains_key(h));
    }
}

fn put_back(table: &mut IosWheelTable, handle: i64, e: IosWheel)
    requires
        forall|h: i64| #[trigger] old(table)@.contains_key(h) ==> old(table)@[h].wf(),
        e.wf(),
    ensures
        final(table)@ == old(table)@.insert(handle, e),
        final(table).wf(),
{
    table.wheels.insert(handle, e);
    assert forall|h: i64| #[trigger] table@.contains_key(h) implies table@[h].wf() by {
        if h != handle {
            assert(old(table)@.contains_key(h));
        }
    }
}

/// Registers a new, empty wheel under `handle` (replacing any wheel there).
pub fn create(table: &mut IosWheelTable, handle: i64, on_change: u64)
    requires
        old(table).wf(),
    ensures
        final(table).wf(),
        final(table)@.dom() == old(table)@.dom().insert(handle),
        forall|h: i64| h != handle && #[trigger] old(table)@.contains_key(h) ==> final(table)@[h] == old(
            table,
        )@[h],
        final(table)@[handle].count() == 0,
        final(table)@[handle].selection() == -1,
        final(table)@[handle].callback() == on_change,
{
    let e = IosWheel { items: Vec::new(), selected: -1, on_change };
    assert(e.titles() =~= Seq::<Seq<char>>::empty());
    put_back(table, handle, e);
}

/// Appends a row titled `title`; the first row of an empty wheel becomes
/// the selection. Returns whether there is a wheel at `handle`.
pub fn add_item(table: &mut IosWheelTable, handle: i64, title: String) -> (found: bool)
    requires
        old(table).wf(),
        old(table)@.contains_key(handle) ==> old(table)@[handle].count() < i64::MAX,
    ensures
        final(table).wf(),
        found == old(table)@.contains_key(handle),
        found ==> {
            let o = old(table)@[handle];
            let n = final(table)@[handle];
            &&& final(table)@ == old(table)@.insert(handle, n)
            &&& n.titles() == o.titles().push(title@)
            &&& n.count() == o.count() + 1
            &&& n.callback() == o.callback()
            &&& n.selection() == (if o.selection() < 0 { 0 } else { o.selection() })
        },
        !found ==> final(table)@ == old(table)@,
{
    let removed = table.wheels.remove(&handle);
    proof {
        lemma_removed_wf(old(table), table, handle);
    }
    match removed {
        None => {
            assert(table@ =~= old(table)@);
            false
        },
        Some(mut e) => {
            assert(old(table)@.contains_key(handle) && old(table)@[handle] == e);
            let ghost o = e;
            e.items.push(title);
            if e.selected < 0 {
                e.selected = 0;
            }
            assert(e.titles() =~= o.titles().push(title@));
            put_back(table, handle, e);
            true
        },
    }
}

/// Selects row `index` programmatically (UIKit posts no selection for it,
/// so the app is not told). An index outside the rows, or an unknown
/// handle, changes nothing. Returns whether the selection was applied.
pub fn set_selected(table: &mut IosWheelTable, handle: i64, index: i64) -> (ok: bool)
    requires
        old(table).wf(),
    ensures
        final(table).wf(),
        ok == (old(table)@.contains_key(handle) && 0 <= index < old(table)@[handle].count()),
        ok ==> {
            let o = old(table)@[handle];
            let n = final(table)@[handle];
            &&& final(table)@ == old(table)@.insert(handle, n)
            &&& n.titles() == o.titles()
            &&& n.count() == o.count()
            &&& n.callback() == o.callback()
            &&& n.selection() == index
        },
        !ok ==> final(table)@ == old(table)@,
{
    let removed = table.wheels.remove(&handle);
    proof {
        lemma_removed_wf(old(table), table, handle);
    }
    match removed {
        None => {
            assert(table@ =~= old(table)@);
            false
        },
        Some(mut e) => {
            assert(old(table)@.contains_key(handle) && old(table)@[handle] == e);
            if index < 0 || index as u64 >= e.items.len() as u64 {
                put_back(table, handle, e);
                assert(table@ =~= old(table)@);
                false
            } else {
                e.selected = index;
                put_back(table, handle, e);
                true
            }
        },
    }
}

/// The user selected `row`: a row of the wheel becomes the selection and,
/// if the wheel has a closure, it is returned to be called with `row`. A
/// row outside the wheel (or an unknown handle) changes nothing.
pub fn did_select_row(table: &mut IosWheelTable, handle: i64, row: i64) -> (fire: Option<u64>)
    requires
        old(table).wf(),
    ensures
        final(table).wf(),
        old(table)@.contains_key(handle) && 0 <= row < old(table)@[handle].count() ==> {
            let o = old(table)@[handle];
            let n = final(table)@[handle];
            &&& final(table)@ == old(table)@.insert(handle, n)
            &&& n.titles() == o.titles()
            &&& n.count() == o.count()
            &&& n.callback() == o.callback()
            &&& n.selection() == row
            &&& fire == (if o.callback() == 0 {
                None
            } else {
                Some(o.callback())
            })
        },
        !(old(table)@.contains_key(handle) && 0 <= row < old(table)@[handle].count())
            ==> final(table)@ == old(table)@ && fire is None,
{
    let removed = table.wheels.remove(&handle);
    proof {
        lemma_removed_wf(old(table), table, handle);
    }
    match removed {
        None => {
            assert(table@ =~= old(table)@);
            None
        },
        Some(mut e) => {
            assert(old(table)@.contains_key(handle) && old(table)@[handle] == e);
            if row < 0 || row as u64 >= e.items.len() as u64 {
                put_back(table, handle, e);
                assert(table@ =~= old(table)@);
                None
            } else {
                e.selected = row;
                let cb = e.on_change;
                put_back(table, handle, e);
                if cb == 0 {
                    None
                } else {
                    Some(cb)
                }
            }
        },
    }
}

/// The selected row: `-1` for an empty wheel or an unknown handle.
pub fn get_selected(table: &IosWheelTable, handle: i64) -> (r: i64)
    requires
        table.wf(),
    ensures
        r == (if table@.contains_key(handle) {
            table@[handle].answer()
        } else {
            -1
        }),
{
    match table.wheels.get(&handle) {
        None => -1,
        Some(e) => {
            if e.items.len() == 0 {
                -1
            } else {
                e.selected
            }
        },
    }
}

/// The data source's row count: the number of rows, `0` for an unknown
/// handle.
pub fn number_of_rows(table: &IosWheelTable, handle: i64) -> (n: i64)
    requires
        table.wf(),
    ensures
        n == (if table@.contains_key(handle) {
            table@[handle].count()
        } else {
            0
        }),
{
    match table.wheels.get(&handle) {
        None => 0,
        Some(e) => e.items.len() as i64,
    }
}

/// What the row view for `row` shows: its title and whether it is the
/// selected row (which may be styled apart from its neighbours).
pub struct RowLabel {
    pub title: String,
    pub selected: bool,
}

/// The label for `row` of the wheel at `handle`; `None` for an unknown
/// handle or a row outside the wheel.
pub fn row_label(table: &IosWheelTable, handle: i64, row: i64) -> (label: Option<RowLabel>)
    requires
        table.wf(),
    ensures
        (table@.contains_key(handle) && 0 <= row < table@[handle].count()) == label is Some,
        label matches Some(l) ==> l.title@ == table@[handle].titles()[row as int] && l.selected == (row
            == table@[handle].selection()),
{
    match table.wheels.get(&handle) {
        None => None,
        Some(e) => {
            if row < 0 || row as u64 >= e.items.len() as u64 {
                None
            } else {
                let title = e.items[row as usize].clone();
                Some(RowLabel { title, selected: row == e.selected })
            }
        },
    }
}

/// The instance variables of the iOS delegate: the widget it answers for.
pub struct PerryWheelPickerDelegateIvars {
    pub handle: i64,
}

impl PerryWheelPickerDelegateIvars {
    /// The ivars of a delegate answering for `handle`.
    pub fn new(handle: i64) -> (ivars: Self)
        ensures
            ivars.handle == handle,
    {
        PerryWheelPickerDelegateIvars { handle }
    }
}

} // verus!
