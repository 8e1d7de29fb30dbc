//! The watchOS wheel: a node of the SwiftUI tree with `.pickerStyle(.wheel)`
//! (the digital crown drives it). The node carries the rows and the
//! selection; SwiftUI draws it.
use std::collections::HashMap;
use vstd::prelude::*;

verus! {

/// The wheel part of one tree node.
pub struct WatchWheel {
    items: Vec<String>,
    selected: i64,
    /// The app's `onChange` closure, `0` when there is none.
    on_change: u64,
}

impl WatchWheel {
    /// The row titles.
    pub closed spec fn titles(&self) -> Seq<Seq<char>> {
        self.items@.map_values(|s: String| s@)
    }

    /// Number of rows.
    pub closed spec fn count(&self) -> int {
        self.items@.len() as int
    }

    /// The stored selection.
    pub closed spec fn selection(&self) -> int {
        self.selected as int
    }

    /// The `onChange` closure, `0` for none.
    pub closed spec fn callback(&self) -> u64 {
        self.on_change
    }
}

/// The wheel nodes, by node handle.
pub struct WatchWheelTable {
    nodes: HashMap<i64, WatchWheel>,
}

impl View for WatchWheelTable {
    type V = Map<i64, WatchWheel>;

    closed spec fn view(&self) -> Map<i64, WatchWheel> {
        self.nodes@
    }
}

/// An empty table.
pub fn new_table() -> (t: WatchWheelTable)
    ensures
        t@ == Map::<i64, WatchWheel>::empty(),
{
    WatchWheelTable { nodes: HashMap::new() }
}

/// Registers a new wheel node without rows under `handle`, selecting `0`,
/// with `on_change` as its closure (`0` for none).
pub fn create(table: &mut WatchWheelTable, handle: i64, on_change: u64)
    ensures
        final(table)@.dom() == old(table)@.dom().insert(handle),
        forall|h: i64| h != handle && #[trigger] old(table)@.contains_key(h) ==> final(table)@[h] == old(
            table,
        )@[h],
        final(table)@[handle].count() == 0,
        final(table)@[handle].titles() == Seq::<Seq<char>>::empty(),
        final(table)@[handle].selection() == 0,
        final(table)@[handle].callback() == on_change,
{
    let e = WatchWheel { items: Vec::new(), selected: 0, on_change };
    assert(e.titles() =~= Seq::<Seq<char>>::empty());
    table.nodes.insert(handle, e);
}

/// Appends a row, when the title could be read (`None` when it could not:
/// nothing changes then). Returns whether a row was appended.
pub fn add_item(table: &mut WatchWheelTable, handle: i64, title: Option<String>) -> (added: bool)
    ensures
        added == (old(table)@.contains_key(handle) && title is Some),
        added ==> {
            let o = old(table)@[handle];
            let n = final(table)@[handle];
            &&& final(table)@ == old(table)@.insert(handle, n)
            &&& n.titles() == o.titles().push(title->0@)
            &&& n.count() == o.count() + 1
            &&& n.selection() == o.selection()
            &&& n.callback() == o.callback()
        },
        !added ==> final(table)@ == old(table)@,
{
    let title = match title {
        None => {
            return false;
        },
        Some(t) => t,
    };
    match table.nodes.remove(&handle) {
        None => {
            assert(table@ =~= old(table)@);
            false
        },
        Some(mut e) => {
            assert(old(table)@.contains_key(handle) && old(table)@[handle] == e);
            let ghost o = e;
            e.items.push(title);
            assert(e.titles() =~= o.titles().push(title@));
            table.nodes.insert(handle, e);
            true
        },
    }
}

/// Stores `index` as the selection, as given: SwiftUI binds the picker to
/// it. An unknown handle changes nothing. Returns whether there is a node.
pub fn set_selected(table: &mut WatchWheelTable, handle: i64, index: i64) -> (found: bool)
    ensures
        found == old(table)@.contains_key(handle),
        found ==> {
            let o = old(table)@[handle];
            let n = final(table)@[handle];
            &&& final(table)@ == old(table)@.insert(handle, n)
            &&& n.titles() == o.titles()
            &&& n.count() == o.count()
            &&& n.callback() == o.callback()
            &&& n.selection() == index
        },
        !found ==> final(table)@ == old(table)@,
{
    match table.nodes.remove(&handle) {
        None => {
            assert(table@ =~= old(table)@);
            false
        },
        Some(mut e) => {
            assert(old(table)@.contains_key(handle) && old(table)@[handle] == e);
            e.selected = index;
            table.nodes.insert(handle, e);
            true
        },
    }
}

/// The selection: `-1` on an empty wheel (never `0`, which would read as
/// "first row selected") or an unknown handle, the stored selection
/// otherwise.
pub fn get_selected(table: &WatchWheelTable, handle: i64) -> (r: i64)
    ensures
        r == (if table@.contains_key(handle) && table@[handle].count() > 0 {
            table@[handle].selection()
        } else {
            -1
        }),
{
    match table.nodes.get(&handle) {
        None => -1,
        Some(e) => {
            if e.items.len() == 0 {
                -1
            } else {
                e.selected
            }
        },
    }
}

/// The rows of the node at `handle`, for the SwiftUI side.
pub fn items(table: &WatchWheelTable, handle: i64) -> (r: Option<&Vec<String>>)
    ensures
        match r {
            Some(v) => table@.contains_key(handle) && v@.map_values(|s: String| s@)
                == table@[handle].titles(),
            None => !table@.contains_key(handle),
        },
{
    match table.nodes.get(&handle) {
        None => None,
        Some(e) => Some(&e.items),
    }
}

} // verus!
