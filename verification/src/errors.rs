//! Errors of the hotkey subsystem.

use vstd::prelude::*;

verus! {

/// Why a hotkey registration failed.
#[derive(Clone, Copy, Debug, PartialEq, Eq, Structural)]
pub enum HotkeyError {
    /// The key name has no native mapping on this platform.
    UnsupportedKey,
    /// The platform offers no global-hotkey facility at all.
    Unsupported,
    /// The platform refused the registration call.
    RegistrationFailed,
}

} // verus!
