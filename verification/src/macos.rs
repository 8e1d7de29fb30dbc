//! macOS specifics of the custom-drawn wheel: the `NSView` subclass's
//! instance variables, and the handle it is created with before the widget
//! registry hands out the real one.
use vstd::prelude::*;

use crate::wheel::WheelTable;

verus! {

/// The instance variables of `PerryWheelPickerView`: the widget it draws.
pub struct PerryWheelPickerViewIvars {
    pub handle: i64,
}

impl PerryWheelPickerViewIvars {
    /// The ivars of a view drawing the wheel at `handle`.
    pub fn new(handle: i64) -> (ivars: Self)
        ensures
            ivars.handle == handle,
    {
        PerryWheelPickerViewIvars { handle }
    }

    /// Points the view at the wheel the registry actually allocated.
    pub fn retarget(&mut self, handle: i64)
        ensures
            final(self).handle == handle,
    {
        self.handle = handle;
    }
}

/// The handle a new view is created with before registration: one past the
/// number of wheels so far. Registration owns handle allocation, so the
/// view is retargeted when the two differ.
pub fn provisional_handle(wheels: &WheelTable) -> (h: i64)
    requires
        wheels@.len() < i64::MAX,
    ensures
        h == wheels@.len() + 1,
{
    let n: usize = crate::wheel::wheel_count(wheels);
    n as i64 + 1
}

} // verus!
