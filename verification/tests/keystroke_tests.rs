use platform_core::keystroke::{Keystroke, Modifiers, ParseError};

#[test]
fn parse_cmd_shift_k() {
    let ks = Keystroke::parse("cmd-shift-k").unwrap();
    assert_eq!(ks.key, "k");
    assert!(ks.modifiers.platform);
    assert!(ks.modifiers.shift);
    assert!(!ks.modifiers.control);
    assert!(!ks.modifiers.alt);
}

#[test]
fn parse_empty_fails() {
    assert_eq!(Keystroke::parse(""), Err(ParseError::EmptyDescriptor));
}

#[test]
fn parse_two_base_tokens_fails() {
    assert_eq!(Keystroke::parse("a-b"), Err(ParseError::UnrecognizedModifier));
}

#[test]
fn parse_unrecognized_modifier_fails() {
    assert_eq!(Keystroke::parse("meta-k"), Err(ParseError::UnrecognizedModifier));
}

#[test]
fn parse_single_key() {
    let ks = Keystroke::parse("k").unwrap();
    assert_eq!(ks.key, "k");
    assert_eq!(ks.modifiers, Modifiers { control: false, alt: false, shift: false, platform: false });
}

#[test]
fn parse_is_case_insensitive_for_modifiers() {
    let ks = Keystroke::parse("CTRL-A").unwrap();
    assert!(ks.modifiers.control);
    assert_eq!(ks.key, "a");
}

#[test]
fn parse_modifier_aliases() {
    assert!(Keystroke::parse("super-k").unwrap().modifiers.platform);
    assert!(Keystroke::parse("win-k").unwrap().modifiers.platform);
    assert!(Keystroke::parse("control-k").unwrap().modifiers.control);
    assert!(Keystroke::parse("option-k").unwrap().modifiers.alt);
}

#[test]
fn parse_all_modifiers() {
    let ks = Keystroke::parse("ctrl-alt-shift-cmd-f5").unwrap();
    assert_eq!(ks.key, "f5");
    assert!(ks.modifiers.control && ks.modifiers.alt && ks.modifiers.shift && ks.modifiers.platform);
}

#[test]
fn parse_lowercases_base_key() {
    let ks = Keystroke::parse("shift-K").unwrap();
    assert_eq!(ks.key, "k");
    let named = Keystroke::parse("ctrl-ENTER").unwrap();
    assert_eq!(named.key, "enter");
}

#[test]
fn parse_named_key_verbatim() {
    let ks = Keystroke::parse("pageup").unwrap();
    assert_eq!(ks.key, "pageup");
}

#[test]
fn parse_modifier_name_as_last_token_is_the_key() {
    let ks = Keystroke::parse("ctrl-shift").unwrap();
    assert!(ks.modifiers.control);
    assert!(!ks.modifiers.shift);
    assert_eq!(ks.key, "shift");
}

#[test]
fn keystroke_equality_needs_key_and_modifiers() {
    let a = Keystroke::parse("ctrl-k").unwrap();
    let b = Keystroke::parse("CTRL-K").unwrap();
    let c = Keystroke::parse("ctrl-j").unwrap();
    let d = Keystroke::parse("ctrl-shift-k").unwrap();
    assert_eq!(a, b);
    assert_ne!(a, c);
    assert_ne!(a, d);
}
