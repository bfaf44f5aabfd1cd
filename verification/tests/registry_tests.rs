use platform_core::errors::HotkeyError;
use platform_core::keystroke::Keystroke;
use platform_core::registry::{
    resolve_x11_keystroke, LinuxGlobalHotkey, WaylandGlobalHotkey, X11GlobalHotkey,
};
use platform_core::x11_keys::KeyboardMapping;

fn two_letter_mapping() -> KeyboardMapping {
    // keycode 8 carries 'k' (0x6b), keycode 9 carries 'j' (0x6a)
    KeyboardMapping {
        min_keycode: 8,
        max_keycode: 9,
        keysyms_per_keycode: 1,
        keysyms: vec![0x6b, 0x6a],
    }
}

#[test]
fn resolve_maps_key_and_modifiers() {
    let ks = Keystroke::parse("ctrl-shift-k").unwrap();
    let native = resolve_x11_keystroke(&ks, &two_letter_mapping()).unwrap();
    assert_eq!(native, (8, 0x5));
}

#[test]
fn resolve_refuses_unknown_key() {
    let ks = Keystroke::parse("ctrl-nosuchkey").unwrap();
    assert_eq!(
        resolve_x11_keystroke(&ks, &two_letter_mapping()),
        Err(HotkeyError::UnsupportedKey)
    );
}

#[test]
fn resolve_refuses_key_missing_from_layout() {
    let ks = Keystroke::parse("ctrl-q").unwrap();
    assert_eq!(
        resolve_x11_keystroke(&ks, &two_letter_mapping()),
        Err(HotkeyError::UnsupportedKey)
    );
}

#[test]
fn reregistering_an_id_keeps_only_the_second_binding() {
    let mut reg = X11GlobalHotkey::new();
    let mut released: Vec<(u8, u16)> = Vec::new();

    let first = reg.register(1, Keystroke::parse("ctrl-k").unwrap(), 8, 0x4);
    assert_eq!(first, None);

    let second = reg.register(1, Keystroke::parse("ctrl-j").unwrap(), 9, 0x4);
    // the first registration's native grab comes back for release
    if let Some(native) = second {
        released.push(native);
    }
    assert_eq!(released, vec![(8, 0x4)]);

    // only the second binding is active: unregistering hands back its
    // native state, and nothing else is left
    assert_eq!(reg.unregister(1), Some((9, 0x4)));
    assert_eq!(reg.unregister(1), None);
}

#[test]
fn unregistering_an_unknown_id_is_a_no_op() {
    let mut reg = X11GlobalHotkey::new();
    assert_eq!(reg.unregister(42), None);

    let mut plain = LinuxGlobalHotkey::new();
    plain.unregister(42);
    assert_eq!(plain.entries().entry_count(), 0);
}

#[test]
fn plain_registry_records_bindings() {
    let mut reg = LinuxGlobalHotkey::new();
    assert_eq!(reg.register(3, Keystroke::parse("cmd-p").unwrap()), Ok(()));
    assert_eq!(reg.entries().entry_count(), 1);
    let stored = reg.entries().get(3).unwrap();
    assert_eq!(stored.key, "p");
    assert!(stored.modifiers.platform);
    reg.unregister(3);
    assert_eq!(reg.entries().entry_count(), 0);
}

#[test]
fn teardown_hands_back_every_native_grab() {
    let mut reg = X11GlobalHotkey::new();
    reg.register(1, Keystroke::parse("ctrl-k").unwrap(), 8, 0x4);
    reg.register(2, Keystroke::parse("ctrl-j").unwrap(), 9, 0x4);
    let drained = reg.take_all();
    assert_eq!(drained, vec![(1, (8, 0x4)), (2, (9, 0x4))]);
    assert_eq!(reg.unregister(1), None);
}

#[test]
fn id_zero_is_not_reserved() {
    let mut reg = LinuxGlobalHotkey::new();
    assert_eq!(reg.register(0, Keystroke::parse("ctrl-a").unwrap()), Ok(()));
    assert_eq!(reg.entries().get(0).unwrap().key, "a");
    reg.unregister(0);
    assert!(reg.entries().get(0).is_none());
}

#[test]
fn wayland_registration_is_unsupported() {
    let mut reg = WaylandGlobalHotkey::new();
    let ks = Keystroke::parse("ctrl-k").unwrap();
    assert_eq!(reg.register(1, &ks), Err(HotkeyError::Unsupported));
    reg.unregister(1);
}
