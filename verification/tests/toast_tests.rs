use platform_core::toast::{Toast, ToastPosition, ToastStack, WindowAppearance, DEFAULT_TOAST_DURATION_MS};

#[test]
fn new_toast_has_defaults() {
    let t = Toast::new("saved".to_string());
    assert_eq!(t.title, "saved");
    assert!(t.body.is_none());
    assert_eq!(t.duration_ms, DEFAULT_TOAST_DURATION_MS);
    assert_eq!(t.position, ToastPosition::TopRight);
}

#[test]
fn toast_builder_sets_fields() {
    let t = Toast::new("saved".to_string())
        .body("all changes written".to_string())
        .duration(1500)
        .position(ToastPosition::TopCenter);
    assert_eq!(t.title, "saved");
    assert_eq!(t.body.as_deref(), Some("all changes written"));
    assert_eq!(t.duration_ms, 1500);
    assert_eq!(t.position, ToastPosition::TopCenter);
}

#[test]
fn default_position_is_top_right() {
    assert_eq!(ToastPosition::default(), ToastPosition::TopRight);
}

#[test]
fn stack_push_and_dismiss() {
    let mut stack = ToastStack::new();
    let i0 = stack.push(Toast::new("one".to_string()));
    let i1 = stack.push(Toast::new("two".to_string()));
    assert_eq!((i0, i1), (0, 1));
    assert_eq!(stack.toasts.len(), 2);
    stack.dismiss_at(0);
    assert_eq!(stack.toasts.len(), 1);
    assert_eq!(stack.toasts[0].title, "two");
}

#[test]
fn stale_dismiss_index_is_ignored() {
    let mut stack = ToastStack::new();
    stack.push(Toast::new("one".to_string()));
    stack.dismiss_at(5);
    assert_eq!(stack.toasts.len(), 1);
}

#[test]
fn stack_clear_empties() {
    let mut stack = ToastStack::new().with_position(ToastPosition::BottomRight);
    stack.push(Toast::new("one".to_string()));
    stack.push(Toast::new("two".to_string()));
    stack.clear();
    assert_eq!(stack.toasts.len(), 0);
    assert_eq!(stack.position, ToastPosition::BottomRight);
}

#[test]
fn dark_appearance_detection() {
    assert!(ToastStack::is_dark_appearance(WindowAppearance::Dark));
    assert!(ToastStack::is_dark_appearance(WindowAppearance::VibrantDark));
    assert!(!ToastStack::is_dark_appearance(WindowAppearance::Light));
    assert!(!ToastStack::is_dark_appearance(WindowAppearance::VibrantLight));
}
