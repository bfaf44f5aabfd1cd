//! Key mapping for the Windows backend: key names to virtual-key codes and
//! modifier sets to the hotkey modifier bitmask.

use vstd::prelude::*;

use crate::chars::{lower_seq, str_eq_lower};
use crate::errors::HotkeyError;
use crate::keystroke::Modifiers;

verus! {

/// Hotkey modifier bit for Alt (`MOD_ALT`).
pub const WIN_MOD_ALT: u32 = 0x1;

/// Hotkey modifier bit for Control (`MOD_CONTROL`).
pub const WIN_MOD_CONTROL: u32 = 0x2;

/// Hotkey modifier bit for Shift (`MOD_SHIFT`).
pub const WIN_MOD_SHIFT: u32 = 0x4;

/// Hotkey modifier bit for the Windows key (`MOD_WIN`).
pub const WIN_MOD_WIN: u32 = 0x8;

/// The virtual-key code denoted by a key name, lowercased: letters,
/// digits, function keys, common named keys and a fixed punctuation set;
/// any name outside the table is refused.
pub open spec fn vk_of(key: Seq<char>) -> Result<u16, HotkeyError> {
    let l = lower_seq(key);
    if l == "a"@ {
        Ok(0x41u16)
    } else if l == "b"@ {
        Ok(0x42u16)
    } else if l == "c"@ {
        Ok(0x43u16)
    } else if l == "d"@ {
        Ok(0x44u16)
    } else if l == "e"@ {
        Ok(0x45u16)
    } else if l == "f"@ {
        Ok(0x46u16)
    } else if l == "g"@ {
        Ok(0x47u16)
    } else if l == "h"@ {
        Ok(0x48u16)
    } else if l == "i"@ {
        Ok(0x49u16)
    } else if l == "j"@ {
        Ok(0x4au16)
    } else if l == "k"@ {
        Ok(0x4bu16)
    } else if l == "l"@ {
        Ok(0x4cu16)
    } else if l == "m"@ {
        Ok(0x4du16)
    } else if l == "n"@ {
        Ok(0x4eu16)
    } else if l == "o"@ {
        Ok(0x4fu16)
    } else if l == "p"@ {
        Ok(0x50u16)
    } else if l == "q"@ {
        Ok(0x51u16)
    } else if l == "r"@ {
        Ok(0x52u16)
    } else if l == "s"@ {
        Ok(0x53u16)
    } else if l == "t"@ {
        Ok(0x54u16)
    } else if l == "u"@ {
        Ok(0x55u16)
    } else if l == "v"@ {
        Ok(0x56u16)
    } else if l == "w"@ {
        Ok(0x57u16)
    } else if l == "x"@ {
        Ok(0x58u16)
    } else if l == "y"@ {
        Ok(0x59u16)
    } else if l == "z"@ {
        Ok(0x5au16)
    } else if l == "0"@ {
        Ok(0x30u16)
    } else if l == "1"@ {
        Ok(0x31u16)
    } else if l == "2"@ {
        Ok(0x32u16)
    } else if l == "3"@ {
        Ok(0x33u16)
    } else if l == "4"@ {
        Ok(0x34u16)
    } else if l == "5"@ {
        Ok(0x35u16)
    } else if l == "6"@ {
        Ok(0x36u16)
    } else if l == "7"@ {
        Ok(0x37u16)
    } else if l == "8"@ {
        Ok(0x38u16)
    } else if l == "9"@ {
        Ok(0x39u16)
    } else if l == "f1"@ {
        Ok(0x70u16)
    } else if l == "f2"@ {
        Ok(0x71u16)
    } else if l == "f3"@ {
        Ok(0x72u16)
    } else if l == "f4"@ {
        Ok(0x73u16)
    } else if l == "f5"@ {
        Ok(0x74u16)
    } else if l == "f6"@ {
        Ok(0x75u16)
    } else if l == "f7"@ {
        Ok(0x76u16)
    } else if l == "f8"@ {
        Ok(0x77u16)
    } else if l == "f9"@ {
        Ok(0x78u16)
    } else if l == "f10"@ {
        Ok(0x79u16)
    } else if l == "f11"@ {
        Ok(0x7au16)
    } else if l == "f12"@ {
        Ok(0x7bu16)
    } else if l == "space"@ {
        Ok(0x20u16)
    } else if l == " "@ {
        Ok(0x20u16)
    } else if l == "enter"@ {
        Ok(0x0du16)
    } else if l == "return"@ {
        Ok(0x0du16)
    } else if l == "tab"@ {
        Ok(0x09u16)
    } else if l == "escape"@ {
        Ok(0x1bu16)
    } else if l == "esc"@ {
        Ok(0x1bu16)
    } else if l == "backspace"@ {
        Ok(0x08u16)
    } else if l == "delete"@ {
        Ok(0x2eu16)
    } else if l == "insert"@ {
        Ok(0x2du16)
    } else if l == "home"@ {
        Ok(0x24u16)
    } else if l == "end"@ {
        Ok(0x23u16)
    } else if l == "pageup"@ {
        Ok(0x21u16)
    } else if l == "pagedown"@ {
        Ok(0x22u16)
    } else if l == "up"@ {
        Ok(0x26u16)
    } else if l == "down"@ {
        Ok(0x28u16)
    } else if l == "left"@ {
        Ok(0x25u16)
    } else if l == "right"@ {
        Ok(0x27u16)
    } else if l == "-"@ {
        Ok(0x2du16)
    } else if l == "="@ {
        Ok(0x3du16)
    } else if l == "["@ {
        Ok(0x5bu16)
    } else if l == "]"@ {
        Ok(0x5du16)
    } else if l == "\\"@ {
        Ok(0x5cu16)
    } else if l == ";"@ {
        Ok(0x3bu16)
    } else if l == "'"@ {
        Ok(0x27u16)
    } else if l == "`"@ {
        Ok(0x60u16)
    } else if l == ","@ {
        Ok(0x2cu16)
    } else if l == "."@ {
        Ok(0x2eu16)
    } else if l == "/"@ {
        Ok(0x2fu16)
    } else {
        Err(HotkeyError::UnsupportedKey)
    }
}

/// Map a key name (case-insensitively) to its Windows virtual-key code,
/// or `UnsupportedKey` for a name outside the table.
pub fn map_key_to_vk(key: &str) -> (r: Result<u16, HotkeyError>)
    ensures
        r == vk_of(key@),
{
    if str_eq_lower(key, "a") {
        Ok(0x41)
    } else if str_eq_lower(key, "b") {
        Ok(0x42)
    } else if str_eq_lower(key, "c") {
        Ok(0x43)
    } else if str_eq_lower(key, "d") {
        Ok(0x44)
    } else if str_eq_lower(key, "e") {
        Ok(0x45)
    } else if str_eq_lower(key, "f") {
        Ok(0x46)
    } else if str_eq_lower(key, "g") {
        Ok(0x47)
    } else if str_eq_lower(key, "h") {
        Ok(0x48)
    } else if str_eq_lower(key, "i") {
        Ok(0x49)
    } else if str_eq_lower(key, "j") {
        Ok(0x4a)
    } else if str_eq_lower(key, "k") {
        Ok(0x4b)
    } else if str_eq_lower(key, "l") {
        Ok(0x4c)
    } else if str_eq_lower(key, "m") {
        Ok(0x4d)
    } else if str_eq_lower(key, "n") {
        Ok(0x4e)
    } else if str_eq_lower(key, "o") {
        Ok(0x4f)
    } else if str_eq_lower(key, "p") {
        Ok(0x50)
    } else if str_eq_lower(key, "q") {
        Ok(0x51)
    } else if str_eq_lower(key, "r") {
        Ok(0x52)
    } else if str_eq_lower(key, "s") {
        Ok(0x53)
    } else if str_eq_lower(key, "t") {
        Ok(0x54)
    } else if str_eq_lower(key, "u") {
        Ok(0x55)
    } else if str_eq_lower(key, "v") {
        Ok(0x56)
    } else if str_eq_lower(key, "w") {
        Ok(0x57)
    } else if str_eq_lower(key, "x") {
        Ok(0x58)
    } else if str_eq_lower(key, "y") {
        Ok(0x59)
    } else if str_eq_lower(key, "z") {
        Ok(0x5a)
    } else if str_eq_lower(key, "0") {
        Ok(0x30)
    } else if str_eq_lower(key, "1") {
        Ok(0x31)
    } else if str_eq_lower(key, "2") {
        Ok(0x32)
    } else if str_eq_lower(key, "3") {
        Ok(0x33)
    } else if str_eq_lower(key, "4") {
        Ok(0x34)
    } else if str_eq_lower(key, "5") {
        Ok(0x35)
    } else if str_eq_lower(key, "6") {
        Ok(0x36)
    } else if str_eq_lower(key, "7") {
        Ok(0x37)
    } else if str_eq_lower(key, "8") {
        Ok(0x38)
    } else if str_eq_lower(key, "9") {
        Ok(0x39)
    } else if str_eq_lower(key, "f1") {
        Ok(0x70)
    } else if str_eq_lower(key, "f2") {
        Ok(0x71)
    } else if str_eq_lower(key, "f3") {
        Ok(0x72)
    } else if str_eq_lower(key, "f4") {
        Ok(0x73)
    } else if str_eq_lower(key, "f5") {
        Ok(0x74)
    } else if str_eq_lower(key, "f6") {
        Ok(0x75)
    } else if str_eq_lower(key, "f7") {
        Ok(0x76)
    } else if str_eq_lower(key, "f8") {
        Ok(0x77)
    } else if str_eq_lower(key, "f9") {
        Ok(0x78)
    } else if str_eq_lower(key, "f10") {
        Ok(0x79)
    } else if str_eq_lower(key, "f11") {
        Ok(0x7a)
    } else if str_eq_lower(key, "f12") {
        Ok(0x7b)
    } else if str_eq_lower(key, "space") {
        Ok(0x20)
    } else if str_eq_lower(key, " ") {
        Ok(0x20)
    } else if str_eq_lower(key, "enter") {
        Ok(0x0d)
    } else if str_eq_lower(key, "return") {
        Ok(0x0d)
    } else if str_eq_lower(key, "tab") {
        Ok(0x09)
    } else if str_eq_lower(key, "escape") {
        Ok(0x1b)
    } else if str_eq_lower(key, "esc") {
        Ok(0x1b)
    } else if str_eq_lower(key, "backspace") {
        Ok(0x08)
    } else if str_eq_lower(key, "delete") {
        Ok(0x2e)
    } else if str_eq_lower(key, "insert") {
        Ok(0x2d)
    } else if str_eq_lower(key, "home") {
        Ok(0x24)
    } else if str_eq_lower(key, "end") {
        Ok(0x23)
    } else if str_eq_lower(key, "pageup") {
        Ok(0x21)
    } else if str_eq_lower(key, "pagedown") {
        Ok(0x22)
    } else if str_eq_lower(key, "up") {
        Ok(0x26)
    } else if str_eq_lower(key, "down") {
        Ok(0x28)
    } else if str_eq_lower(key, "left") {
        Ok(0x25)
    } else if str_eq_lower(key, "right") {
        Ok(0x27)    } else if str_eq_lower(key, "-") {
        Ok(0x2d)
    } else if str_eq_lower(key, "=") {
        Ok(0x3d)
    } else if str_eq_lower(key, "[") {
        Ok(0x5b)
    } else if str_eq_lower(key, "]") {
        Ok(0x5d)
    } else if str_eq_lower(key, "\\") {
        Ok(0x5c)
    } else if str_eq_lower(key, ";") {
        Ok(0x3b)
    } else if str_eq_lower(key, "'") {
        Ok(0x27)
    } else if str_eq_lower(key, "`") {
        Ok(0x60)
    } else if str_eq_lower(key, ",") {
        Ok(0x2c)
    } else if str_eq_lower(key, ".") {
        Ok(0x2e)
    } else if str_eq_lower(key, "/") {
        Ok(0x2f)
    } else {
        Err(HotkeyError::UnsupportedKey)
    }
}

/// The hotkey modifier bitmask of a modifier set: one bit per modifier,
/// composed independently.
pub open spec fn win_modmask_of(m: Modifiers) -> u32 {
    let a = if m.alt { WIN_MOD_ALT } else { 0 };
    let c = if m.control { WIN_MOD_CONTROL } else { 0 };
    let s = if m.shift { WIN_MOD_SHIFT } else { 0 };
    let p = if m.platform { WIN_MOD_WIN } else { 0 };
    a | c | s | p
}

/// Compose the hotkey modifier bitmask for a modifier set.
pub fn map_modifiers(m: &Modifiers) -> (r: u32)
    ensures
        r == win_modmask_of(*m),
{
    let a: u32 = if m.alt { WIN_MOD_ALT } else { 0 };
    let c: u32 = if m.control { WIN_MOD_CONTROL } else { 0 };
    let s: u32 = if m.shift { WIN_MOD_SHIFT } else { 0 };
    let p: u32 = if m.platform { WIN_MOD_WIN } else { 0 };
    a | c | s | p
}

/// Each modifier contributes exactly its own bit to the mask, whatever
/// the other modifiers are: the composition is independent and
/// order-blind.
pub proof fn lemma_win_modmask_bits(m: Modifiers)
    ensures
        ((win_modmask_of(m) & WIN_MOD_ALT) != 0) == m.alt,
        ((win_modmask_of(m) & WIN_MOD_CONTROL) != 0) == m.control,
        ((win_modmask_of(m) & WIN_MOD_SHIFT) != 0) == m.shift,
        ((win_modmask_of(m) & WIN_MOD_WIN) != 0) == m.platform,
{
    let a: u32 = if m.alt { WIN_MOD_ALT } else { 0 };
    let c: u32 = if m.control { WIN_MOD_CONTROL } else { 0 };
    let s: u32 = if m.shift { WIN_MOD_SHIFT } else { 0 };
    let p: u32 = if m.platform { WIN_MOD_WIN } else { 0 };
    assert(win_modmask_of(m) == (a | c | s | p));
    assert((((a | c | s | p) & 0x1u32) != 0) == (a == 0x1u32) && (((a | c | s | p) & 0x2u32) != 0)
        == (c == 0x2u32) && (((a | c | s | p) & 0x4u32) != 0) == (s == 0x4u32) && (((a | c | s | p)
        & 0x8u32) != 0) == (p == 0x8u32)) by (bit_vector)
        requires
            a == 0x1u32 || a == 0u32,
            c == 0x2u32 || c == 0u32,
            s == 0x4u32 || s == 0u32,
            p == 0x8u32 || p == 0u32,
    ;
}

} // verus!
