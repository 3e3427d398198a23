//! Identities of compositor objects.
//!
//! A window or a display is known to the engine only by the identity the
//! compositor assigned to it for the lifetime of the connection. Two identities
//! denote the same object exactly when their protocol ids are equal.

use vstd::prelude::*;

verus! {

/// Identity of a window (a foreign toplevel handle).
#[derive(Clone, Copy, Debug, PartialEq, Eq, Structural, Hash)]
pub struct WindowId(pub u32);

/// Identity of a physical display (an output).
#[derive(Clone, Copy, Debug, PartialEq, Eq, Structural, Hash)]
pub struct DisplayId(pub u32);

} // verus!
