//! Object ids that the Wayland protocol fixes.

use vstd::prelude::*;

verus! {

/// `wl_display` is always object 1.
pub const WL_DISPLAY: u32 = 1;

} // verus!
