//! Platform-integration core: keystroke descriptors, per-platform key
//! mapping, global-hotkey bookkeeping, and single-instance coordination,
//! together with a few small pure helpers used by the surrounding shell
//! (toasts, window placement, dialog message assembly).

pub mod auto_launch;
pub mod chars;
pub mod dialog;
pub mod errors;
pub mod idmap;
pub mod keystroke;
pub mod mac_keys;
pub mod pathtable;
pub mod positioner;
pub mod power;
pub mod registry;
pub mod single_instance;
pub mod toast;
pub mod win_keys;
pub mod x11_keys;

pub use keystroke::Keystroke;
pub use keystroke::Modifiers;
pub use keystroke::ParseError;
