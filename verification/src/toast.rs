//! Toast notifications: per-toast configuration and the stack that owns
//! the toasts a window shows. Rendering and timer scheduling belong to the
//! surrounding shell; the stack holds the state they read and mutate.

use vstd::prelude::*;

verus! {

/// Position where toasts appear on screen.
#[derive(Clone, Copy, Debug, PartialEq, Eq, Structural)]
pub enum ToastPosition {
    /// Top-right corner of the window.
    TopRight,
    /// Bottom-right corner of the window.
    BottomRight,
    /// Top-center of the window.
    TopCenter,
}

impl Default for ToastPosition {
    fn default() -> (r: Self)
        ensures
            r == ToastPosition::TopRight,
    {
        ToastPosition::TopRight
    }
}

/// How a window is colored, as the shell reports it.
#[derive(Clone, Copy, Debug, PartialEq, Eq, Structural)]
pub enum WindowAppearance {
    Light,
    VibrantLight,
    Dark,
    VibrantDark,
}

/// Configuration for a single toast notification.
#[derive(Debug)]
pub struct Toast {
    pub title: String,
    pub body: Option<String>,
    pub duration_ms: u64,
    pub position: ToastPosition,
}

/// How long a toast stays up when no duration is set, in milliseconds.
pub const DEFAULT_TOAST_DURATION_MS: u64 = 3000;

impl Toast {
    /// Create a new toast with the given title.
    pub fn new(title: String) -> (r: Toast)
        ensures
            r.title@ == title@,
            r.body is None,
            r.duration_ms == DEFAULT_TOAST_DURATION_MS,
            r.position == ToastPosition::TopRight,
    {
        Toast {
            title,
            body: None,
            duration_ms: DEFAULT_TOAST_DURATION_MS,
            position: ToastPosition::TopRight,
        }
    }

    /// Set the body text of the toast.
    pub fn body(self, body: String) -> (r: Toast)
        ensures
            r.title@ == self.title@,
            r.body == Some(body),
            r.duration_ms == self.duration_ms,
            r.position == self.position,
    {
        Toast { body: Some(body), ..self }
    }

    /// Set how long the toast is displayed before auto-dismissing, in
    /// milliseconds.
    pub fn duration(self, duration_ms: u64) -> (r: Toast)
        ensures
            r.title@ == self.title@,
            r.body == self.body,
            r.duration_ms == duration_ms,
            r.position == self.position,
    {
        Toast { duration_ms, ..self }
    }

    /// Set the screen position where the toast appears.
    pub fn position(self, position: ToastPosition) -> (r: Toast)
        ensures
            r.title@ == self.title@,
            r.body == self.body,
            r.duration_ms == self.duration_ms,
            r.position == position,
    {
        Toast { position, ..self }
    }
}

/// A stack of toast notifications that manages display order and
/// auto-dismissal bookkeeping.
pub struct ToastStack {
    pub toasts: Vec<Toast>,
    pub position: ToastPosition,
}

impl ToastStack {
    /// Create a new empty toast stack with the default position.
    pub fn new() -> (r: ToastStack)
        ensures
            r.toasts@.len() == 0,
            r.position == ToastPosition::TopRight,
    {
        ToastStack { toasts: Vec::new(), position: ToastPosition::TopRight }
    }

    /// Set the default position for toasts in this stack.
    pub fn with_position(self, position: ToastPosition) -> (r: ToastStack)
        ensures
            r.toasts@ == self.toasts@,
            r.position == position,
    {
        ToastStack { position, ..self }
    }

    /// Push a new toast onto the stack; the shell schedules its dismissal
    /// after the toast's duration and then calls [`ToastStack::dismiss_at`]
    /// with the index this returns.
    pub fn push(&mut self, toast: Toast) -> (index: usize)
        ensures
            final(self).toasts@ == old(self).toasts@.push(toast),
            final(self).position == old(self).position,
            index == old(self).toasts@.len(),
    {
        self.toasts.push(toast);
        self.toasts.len() - 1
    }

    /// Dismiss the toast at `index` when it is still present; a stale
    /// index — the stack shrank meanwhile — is ignored.
    pub fn dismiss_at(&mut self, index: usize)
        ensures
            final(self).position == old(self).position,
            (if index < old(self).toasts@.len() {
                final(self).toasts@ == old(self).toasts@.remove(index as int)
            } else {
                *final(self) == *old(self)
            }),
    {
        if index < self.toasts.len() {
            let _ = self.toasts.remove(index);
        }
    }

    /// Remove all toasts from the stack.
    pub fn clear(&mut self)
        ensures
            final(self).toasts@.len() == 0,
            final(self).position == old(self).position,
    {
        self.toasts.clear();
    }

    /// Whether an appearance calls for the dark toast colors.
    pub fn is_dark_appearance(appearance: WindowAppearance) -> (r: bool)
        ensures
            r == (appearance == WindowAppearance::Dark || appearance
                == WindowAppearance::VibrantDark),
    {
        match appearance {
            WindowAppearance::Dark => true,
            WindowAppearance::VibrantDark => true,
            WindowAppearance::Light => false,
            WindowAppearance::VibrantLight => false,
        }
    }
}

} // verus!
