//! Stacking bands of the shell.

use vstd::prelude::*;

verus! {

/// Lowest index of the application-window band.
pub const WINDOW_Z_INDEX_MIN: i32 = 0;

/// Highest index of the application-window band.
pub const WINDOW_Z_INDEX_MAX: i32 = 999_999;

/// Index of the shell overlay, above every application window.
pub const SHELL_Z_INDEX: i32 = 1_000_000;

/// Every application window is stacked below the shell overlay.
pub proof fn windows_stay_below_the_shell(z_index: i32)
    requires
        WINDOW_Z_INDEX_MIN <= z_index <= WINDOW_Z_INDEX_MAX,
    ensures
        z_index < SHELL_Z_INDEX,
{
}

} // verus!
