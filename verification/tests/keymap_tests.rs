use platform_core::keystroke::{Keystroke, Modifiers};
use platform_core::mac_keys::{find_matching_hotkey, keystroke_matches_event, normalize_key_name, KeyEvent};
use platform_core::registry::LinuxGlobalHotkey;
use platform_core::win_keys::{map_key_to_vk, map_modifiers};
use platform_core::x11_keys::{
    key_name_to_keysym, keystroke_to_x11_modmask, x11_keycode_for_keysym, KeyboardMapping,
};
use platform_core::errors::HotkeyError;

fn mods(control: bool, alt: bool, shift: bool, platform: bool) -> Modifiers {
    Modifiers { control, alt, shift, platform }
}

#[test]
fn keysym_letters_and_digits() {
    assert_eq!(key_name_to_keysym("a"), Some(0x61));
    assert_eq!(key_name_to_keysym("z"), Some(0x7a));
    assert_eq!(key_name_to_keysym("0"), Some(0x30));
    assert_eq!(key_name_to_keysym("9"), Some(0x39));
}

#[test]
fn keysym_named_keys() {
    assert_eq!(key_name_to_keysym("enter"), Some(0xff0d));
    assert_eq!(key_name_to_keysym("return"), Some(0xff0d));
    assert_eq!(key_name_to_keysym("escape"), Some(0xff1b));
    assert_eq!(key_name_to_keysym("f1"), Some(0xffbe));
    assert_eq!(key_name_to_keysym("f12"), Some(0xffc9));
    assert_eq!(key_name_to_keysym("up"), Some(0xff52));
    assert_eq!(key_name_to_keysym("/"), Some(0x2f));
    assert_eq!(key_name_to_keysym("\\"), Some(0x5c));
}

#[test]
fn keysym_is_case_insensitive() {
    assert_eq!(key_name_to_keysym("A"), Some(0x61));
    assert_eq!(key_name_to_keysym("Enter"), Some(0xff0d));
}

#[test]
fn keysym_unknown_name() {
    assert_eq!(key_name_to_keysym("nosuchkey"), None);
    assert_eq!(key_name_to_keysym(""), None);
}

#[test]
fn x11_modmask_values() {
    assert_eq!(keystroke_to_x11_modmask(&mods(false, false, false, false)), 0);
    assert_eq!(keystroke_to_x11_modmask(&mods(true, false, false, false)), 0x4);
    assert_eq!(keystroke_to_x11_modmask(&mods(false, true, false, false)), 0x8);
    assert_eq!(keystroke_to_x11_modmask(&mods(false, false, true, false)), 0x1);
    assert_eq!(keystroke_to_x11_modmask(&mods(false, false, false, true)), 0x40);
    assert_eq!(keystroke_to_x11_modmask(&mods(true, true, true, true)), 0x4d);
}

#[test]
fn x11_keycode_scan_finds_first() {
    let mapping = KeyboardMapping {
        min_keycode: 8,
        max_keycode: 11,
        keysyms_per_keycode: 2,
        keysyms: vec![0x61, 0x41, 0x62, 0x42, 0x61, 0x41, 0x63, 0x43],
    };
    // keysym 0x61 appears in the groups of keycodes 8 and 10; the first wins
    assert_eq!(x11_keycode_for_keysym(&mapping, 0x61), Some(8));
    assert_eq!(x11_keycode_for_keysym(&mapping, 0x42), Some(9));
    assert_eq!(x11_keycode_for_keysym(&mapping, 0x7a), None);
}

#[test]
fn x11_keycode_scan_empty_groups() {
    let mapping = KeyboardMapping {
        min_keycode: 8,
        max_keycode: 9,
        keysyms_per_keycode: 0,
        keysyms: vec![],
    };
    assert_eq!(x11_keycode_for_keysym(&mapping, 0x61), None);
}

#[test]
fn vk_table_values() {
    assert_eq!(map_key_to_vk("a"), Ok(0x41));
    assert_eq!(map_key_to_vk("z"), Ok(0x5a));
    assert_eq!(map_key_to_vk("5"), Ok(0x35));
    assert_eq!(map_key_to_vk("f1"), Ok(0x70));
    assert_eq!(map_key_to_vk("f12"), Ok(0x7b));
    assert_eq!(map_key_to_vk("space"), Ok(0x20));
    assert_eq!(map_key_to_vk(" "), Ok(0x20));
    assert_eq!(map_key_to_vk("enter"), Ok(0x0d));
    assert_eq!(map_key_to_vk("esc"), Ok(0x1b));
    assert_eq!(map_key_to_vk("pageup"), Ok(0x21));
    assert_eq!(map_key_to_vk("pagedown"), Ok(0x22));
}

#[test]
fn vk_punctuation_values() {
    assert_eq!(map_key_to_vk(";"), Ok(0x3b));
    assert_eq!(map_key_to_vk("="), Ok(0x3d));
    assert_eq!(map_key_to_vk("-"), Ok(0x2d));
    assert_eq!(map_key_to_vk("["), Ok(0x5b));
    assert_eq!(map_key_to_vk("]"), Ok(0x5d));
    assert_eq!(map_key_to_vk("\\"), Ok(0x5c));
    assert_eq!(map_key_to_vk("'"), Ok(0x27));
    assert_eq!(map_key_to_vk("`"), Ok(0x60));
    assert_eq!(map_key_to_vk(","), Ok(0x2c));
    assert_eq!(map_key_to_vk("."), Ok(0x2e));
    assert_eq!(map_key_to_vk("/"), Ok(0x2f));
}

#[test]
fn vk_names_outside_the_table_are_refused() {
    assert_eq!(map_key_to_vk("nosuchkey"), Err(HotkeyError::UnsupportedKey));
    // a single character outside the table is refused too, not guessed at
    assert_eq!(map_key_to_vk("!"), Err(HotkeyError::UnsupportedKey));
    assert_eq!(map_key_to_vk("\u{e9}"), Err(HotkeyError::UnsupportedKey));
    assert_eq!(map_key_to_vk(""), Err(HotkeyError::UnsupportedKey));
}

#[test]
fn win_modmask_values() {
    assert_eq!(map_modifiers(&mods(false, false, false, false)), 0);
    assert_eq!(map_modifiers(&mods(false, true, false, false)), 0x1);
    assert_eq!(map_modifiers(&mods(true, false, false, false)), 0x2);
    assert_eq!(map_modifiers(&mods(false, false, true, false)), 0x4);
    assert_eq!(map_modifiers(&mods(false, false, false, true)), 0x8);
    assert_eq!(map_modifiers(&mods(true, true, true, true)), 0xf);
}

#[test]
fn normalize_special_event_characters() {
    assert_eq!(normalize_key_name(" "), "space");
    assert_eq!(normalize_key_name("\t"), "tab");
    assert_eq!(normalize_key_name("\r"), "enter");
    assert_eq!(normalize_key_name("\n"), "enter");
    assert_eq!(normalize_key_name("\u{1b}"), "escape");
    assert_eq!(normalize_key_name("\u{7f}"), "backspace");
    assert_eq!(normalize_key_name("\u{f700}"), "up");
    assert_eq!(normalize_key_name("\u{f72d}"), "pagedown");
    assert_eq!(normalize_key_name("k"), "k");
}

fn key_down(command: bool, control: bool, alt: bool, shift: bool, characters: &str) -> KeyEvent {
    KeyEvent {
        is_key_down: true,
        command,
        control,
        alt,
        shift,
        characters: characters.to_string(),
    }
}

#[test]
fn event_matches_plain_character() {
    let ks = Keystroke::parse("cmd-k").unwrap();
    assert!(keystroke_matches_event(&ks, &key_down(true, false, false, false, "k")));
    assert!(keystroke_matches_event(&ks, &key_down(true, false, false, false, "K")));
}

#[test]
fn event_round_trips_named_keys() {
    // mapping a key name to its event characters and back recognizes the
    // original descriptor, for every named key of the vocabulary
    let cases: Vec<(&str, &str)> = vec![
        ("space", " "),
        ("tab", "\t"),
        ("enter", "\r"),
        ("escape", "\u{1b}"),
        ("backspace", "\u{7f}"),
        ("up", "\u{f700}"),
        ("down", "\u{f701}"),
        ("left", "\u{f702}"),
        ("right", "\u{f703}"),
        ("delete", "\u{f728}"),
        ("home", "\u{f729}"),
        ("end", "\u{f72b}"),
        ("pageup", "\u{f72c}"),
        ("pagedown", "\u{f72d}"),
    ];
    for (name, chars) in cases {
        let descriptor = format!("ctrl-{}", name);
        let ks = Keystroke::parse(&descriptor).unwrap();
        assert!(
            keystroke_matches_event(&ks, &key_down(false, true, false, false, chars)),
            "round trip failed for {}",
            name
        );
    }
}

#[test]
fn event_requires_exact_modifiers() {
    let ks = Keystroke::parse("cmd-k").unwrap();
    assert!(!keystroke_matches_event(&ks, &key_down(false, false, false, false, "k")));
    assert!(!keystroke_matches_event(&ks, &key_down(true, true, false, false, "k")));
}

#[test]
fn event_requires_key_down() {
    let ks = Keystroke::parse("cmd-k").unwrap();
    let ev = KeyEvent {
        is_key_down: false,
        command: true,
        control: false,
        alt: false,
        shift: false,
        characters: "k".to_string(),
    };
    assert!(!keystroke_matches_event(&ks, &ev));
}

#[test]
fn dispatch_scan_returns_first_match() {
    let mut reg = LinuxGlobalHotkey::new();
    reg.register(7, Keystroke::parse("cmd-k").unwrap()).unwrap();
    reg.register(9, Keystroke::parse("ctrl-j").unwrap()).unwrap();
    let ev = key_down(false, true, false, false, "j");
    assert_eq!(find_matching_hotkey(reg.entries(), &ev), Some(9));
    let miss = key_down(false, false, false, false, "q");
    assert_eq!(find_matching_hotkey(reg.entries(), &miss), None);
}
