//! Platform-independent core of the perry/ui `WheelPicker` widget and of the
//! Win32 stack layout engine.
//!
//! Every backend keeps the same per-wheel state (the rows, the selected row,
//! the last index reported to the app) and the same rules for it; the
//! platform shells only draw and forward input.
use vstd::prelude::*;

pub mod android;
pub mod arith;
pub mod ios;
pub mod layout;
pub mod macos;
pub mod stack;
pub mod stack_laws;
pub mod style;
pub mod text;
pub mod watchos;
pub mod wheel;
pub mod wheel_laws;

verus! {

} // verus!
