//! The Android wheel: `PerryWheelPickerView` in the app template draws the
//! column and keeps the selection; this side keeps the rows, so an empty
//! wheel can answer `-1` before the view has even been laid out.
use std::collections::HashMap;
use vstd::prelude::*;

verus! {

/// State of one Android wheel.
pub struct AndroidWheel {
    items: Vec<String>,
    /// The app's `onChange` closure, `0` when there is none.
    on_change: u64,
}

impl AndroidWheel {
    /// The row titles.
    pub closed spec fn titles(&self) -> Seq<Seq<char>> {
        self.items@.map_values(|s: String| s@)
    }

    /// Number of rows.
    pub closed spec fn count(&self) -> int {
        self.items@.len() as int
    }

    /// The `onChange` closure, `0` for none.
    pub closed spec fn callback(&self) -> u64 {
        self.on_change
    }
}

/// The Android wheels, by widget handle.
pub struct AndroidWheelTable {
    wheels: HashMap<i64, AndroidWheel>,
}

impl View for AndroidWheelTable {
    type V = Map<i64, AndroidWheel>;

    closed spec fn view(&self) -> Map<i64, AndroidWheel> {
        self.wheels@
    }
}

/// An empty table.
pub fn new_table() -> (t: AndroidWheelTable)
    ensures
        t@ == Map::<i64, AndroidWheel>::empty(),
{
    AndroidWheelTable { wheels: HashMap::new() }
}

/// Registers a new wheel without rows under `handle` (replacing any wheel
/// there).
pub fn create(table: &mut AndroidWheelTable, handle: i64, on_change: u64)
    ensures
        final(table)@.dom() == old(table)@.dom().insert(handle),
        forall|h: i64| h != handle && #[trigger] old(table)@.contains_key(h) ==> final(table)@[h] == old(
            table,
        )@[h],
        final(table)@[handle].count() == 0,
        final(table)@[handle].titles() == Seq::<Seq<char>>::empty(),
        final(table)@[handle].callback() == on_change,
{
    let e = AndroidWheel { items: Vec::new(), on_change };
    assert(e.titles() =~= Seq::<Seq<char>>::empty());
    table.wheels.insert(handle, e);
}

/// Appends a row titled `title`. Returns whether there is a wheel at
/// `handle`; the view is then handed the whole list of rows (`items`).
pub fn add_item(table: &mut AndroidWheelTable, handle: i64, title: String) -> (found: bool)
    ensures
        found == old(table)@.contains_key(handle),
        found ==> {
            let o = old(table)@[handle];
            let n = final(table)@[handle];
            &&& final(table)@ == old(table)@.insert(handle, n)
            &&& n.titles() == o.titles().push(title@)
            &&& n.count() == o.count() + 1
            &&& n.callback() == o.callback()
        },
        !found ==> final(table)@ == old(table)@,
{
    match table.wheels.remove(&handle) {
        None => {
            assert(table@ =~= old(table)@);
            false
        },
        Some(mut e) => {
            assert(old(table)@.contains_key(handle) && old(table)@[handle] == e);
            let ghost o = e;
            e.items.push(title);
            assert(e.titles() =~= o.titles().push(title@));
            table.wheels.insert(handle, e);
            true
        },
    }
}

/// The rows of the wheel at `handle`, to hand to the view.
pub fn items(table: &AndroidWheelTable, handle: i64) -> (r: Option<&Vec<String>>)
    ensures
        match r {
            Some(v) => table@.contains_key(handle) && v@.map_values(|s: String| s@)
                == table@[handle].titles(),
            None => !table@.contains_key(handle),
        },
{
    match table.wheels.get(&handle) {
        None => None,
        Some(e) => Some(&e.items),
    }
}

/// The number of rows of the wheel at `handle`, `0` for an unknown handle.
pub open spec fn row_count(table: Map<i64, AndroidWheel>, handle: i64) -> int {
    if table.contains_key(handle) {
        table[handle].count()
    } else {
        0
    }
}

/// A programmatic selection of row `index`: the value to set quietly on the
/// view (which then cannot echo it back as a user `onChange`), or `None`
/// when `index` is not a row of the wheel.
pub fn set_selected(table: &AndroidWheelTable, handle: i64, index: i64) -> (value: Option<i32>)
    ensures
        value == (if 0 <= index < row_count(table@, handle) {
            Some(index as i32)
        } else {
            None
        }),
{
    let count: usize = match table.wheels.get(&handle) {
        None => 0,
        Some(e) => e.items.len(),
    };
    if index < 0 || index as u64 >= count as u64 {
        None
    } else {
        Some(index as i32)
    }
}

/// Whether answering `get_selected` needs the view: only a wheel with rows
/// has a selection to ask for.
pub fn needs_view_value(table: &AndroidWheelTable, handle: i64) -> (ask: bool)
    ensures
        ask == (row_count(table@, handle) > 0),
{
    match table.wheels.get(&handle) {
        None => false,
        Some(e) => e.items.len() > 0,
    }
}

/// The selected row: `-1` for an empty wheel or an unknown handle, without
/// asking the view; otherwise what the view reported as its current value
/// (`-1` when the view could not be asked).
pub fn get_selected(table: &AndroidWheelTable, handle: i64, view_value: Option<i32>) -> (r: i64)
    ensures
        r == (if row_count(table@, handle) == 0 {
            -1
        } else {
            match view_value {
                Some(v) => v as int,
                None => -1,
            }
        }),
{
    let count: usize = match table.wheels.get(&handle) {
        None => 0,
        Some(e) => e.items.len(),
    };
    if count == 0 {
        return -1;
    }
    match view_value {
        Some(v) => v as i64,
        None => -1,
    }
}

} // verus!
