//! Key mapping for the X11 backend: key names to keysyms, modifier sets to
//! the X modifier bitmask, and keysym-to-keycode resolution against the
//! keyboard mapping reported by the server.

use vstd::prelude::*;

use crate::chars::{lower_seq, str_eq_lower};
use crate::keystroke::Modifiers;

verus! {

/// X modifier bit for Shift (`ShiftMask` of the core protocol).
pub const X11_MOD_SHIFT: u16 = 0x1;

/// X modifier bit for Control (`ControlMask`).
pub const X11_MOD_CONTROL: u16 = 0x4;

/// X modifier bit for Mod1, conventionally Alt.
pub const X11_MOD_ALT: u16 = 0x8;

/// X modifier bit for Mod4, conventionally Super.
pub const X11_MOD_SUPER: u16 = 0x40;

/// The keysym denoted by a key name, lowercased: letters, digits, function
/// keys, common named keys and a fixed punctuation set.
pub open spec fn keysym_of(key: Seq<char>) -> Option<u32> {
    let l = lower_seq(key);
    if l == "a"@ {
        Some(0x61u32)
    } else if l == "b"@ {
        Some(0x62u32)
    } else if l == "c"@ {
        Some(0x63u32)
    } else if l == "d"@ {
        Some(0x64u32)
    } else if l == "e"@ {
        Some(0x65u32)
    } else if l == "f"@ {
        Some(0x66u32)
    } else if l == "g"@ {
        Some(0x67u32)
    } else if l == "h"@ {
        Some(0x68u32)
    } else if l == "i"@ {
        Some(0x69u32)
    } else if l == "j"@ {
        Some(0x6au32)
    } else if l == "k"@ {
        Some(0x6bu32)
    } else if l == "l"@ {
        Some(0x6cu32)
    } else if l == "m"@ {
        Some(0x6du32)
    } else if l == "n"@ {
        Some(0x6eu32)
    } else if l == "o"@ {
        Some(0x6fu32)
    } else if l == "p"@ {
        Some(0x70u32)
    } else if l == "q"@ {
        Some(0x71u32)
    } else if l == "r"@ {
        Some(0x72u32)
    } else if l == "s"@ {
        Some(0x73u32)
    } else if l == "t"@ {
        Some(0x74u32)
    } else if l == "u"@ {
        Some(0x75u32)
    } else if l == "v"@ {
        Some(0x76u32)
    } else if l == "w"@ {
        Some(0x77u32)
    } else if l == "x"@ {
        Some(0x78u32)
    } else if l == "y"@ {
        Some(0x79u32)
    } else if l == "z"@ {
        Some(0x7au32)
    } else if l == "0"@ {
        Some(0x30u32)
    } else if l == "1"@ {
        Some(0x31u32)
    } else if l == "2"@ {
        Some(0x32u32)
    } else if l == "3"@ {
        Some(0x33u32)
    } else if l == "4"@ {
        Some(0x34u32)
    } else if l == "5"@ {
        Some(0x35u32)
    } else if l == "6"@ {
        Some(0x36u32)
    } else if l == "7"@ {
        Some(0x37u32)
    } else if l == "8"@ {
        Some(0x38u32)
    } else if l == "9"@ {
        Some(0x39u32)
    } else if l == "space"@ {
        Some(0x20u32)
    } else if l == "enter"@ {
        Some(0xff0du32)
    } else if l == "return"@ {
        Some(0xff0du32)
    } else if l == "tab"@ {
        Some(0xff09u32)
    } else if l == "escape"@ {
        Some(0xff1bu32)
    } else if l == "backspace"@ {
        Some(0xff08u32)
    } else if l == "delete"@ {
        Some(0xffffu32)
    } else if l == "insert"@ {
        Some(0xff63u32)
    } else if l == "home"@ {
        Some(0xff50u32)
    } else if l == "end"@ {
        Some(0xff57u32)
    } else if l == "pageup"@ {
        Some(0xff55u32)
    } else if l == "pagedown"@ {
        Some(0xff56u32)
    } else if l == "left"@ {
        Some(0xff51u32)
    } else if l == "up"@ {
        Some(0xff52u32)
    } else if l == "right"@ {
        Some(0xff53u32)
    } else if l == "down"@ {
        Some(0xff54u32)
    } else if l == "f1"@ {
        Some(0xffbeu32)
    } else if l == "f2"@ {
        Some(0xffbfu32)
    } else if l == "f3"@ {
        Some(0xffc0u32)
    } else if l == "f4"@ {
        Some(0xffc1u32)
    } else if l == "f5"@ {
        Some(0xffc2u32)
    } else if l == "f6"@ {
        Some(0xffc3u32)
    } else if l == "f7"@ {
        Some(0xffc4u32)
    } else if l == "f8"@ {
        Some(0xffc5u32)
    } else if l == "f9"@ {
        Some(0xffc6u32)
    } else if l == "f10"@ {
        Some(0xffc7u32)
    } else if l == "f11"@ {
        Some(0xffc8u32)
    } else if l == "f12"@ {
        Some(0xffc9u32)
    } else if l == "-"@ {
        Some(0x2du32)
    } else if l == "="@ {
        Some(0x3du32)
    } else if l == "["@ {
        Some(0x5bu32)
    } else if l == "]"@ {
        Some(0x5du32)
    } else if l == "\\"@ {
        Some(0x5cu32)
    } else if l == ";"@ {
        Some(0x3bu32)
    } else if l == "'"@ {
        Some(0x27u32)
    } else if l == "`"@ {
        Some(0x60u32)
    } else if l == ","@ {
        Some(0x2cu32)
    } else if l == "."@ {
        Some(0x2eu32)
    } else if l == "/"@ {
        Some(0x2fu32)
    } else {
        None
    }}

/// Map a key name (case-insensitively) to its X11 keysym, or `None` for a
/// name outside the supported table.
pub fn key_name_to_keysym(key: &str) -> (r: Option<u32>)
    ensures
        r == keysym_of(key@),
{
    if str_eq_lower(key, "a") {
        Some(0x61)
    } else if str_eq_lower(key, "b") {
        Some(0x62)
    } else if str_eq_lower(key, "c") {
        Some(0x63)
    } else if str_eq_lower(key, "d") {
        Some(0x64)
    } else if str_eq_lower(key, "e") {
        Some(0x65)
    } else if str_eq_lower(key, "f") {
        Some(0x66)
    } else if str_eq_lower(key, "g") {
        Some(0x67)
    } else if str_eq_lower(key, "h") {
        Some(0x68)
    } else if str_eq_lower(key, "i") {
        Some(0x69)
    } else if str_eq_lower(key, "j") {
        Some(0x6a)
    } else if str_eq_lower(key, "k") {
        Some(0x6b)
    } else if str_eq_lower(key, "l") {
        Some(0x6c)
    } else if str_eq_lower(key, "m") {
        Some(0x6d)
    } else if str_eq_lower(key, "n") {
        Some(0x6e)
    } else if str_eq_lower(key, "o") {
        Some(0x6f)
    } else if str_eq_lower(key, "p") {
        Some(0x70)
    } else if str_eq_lower(key, "q") {
        Some(0x71)
    } else if str_eq_lower(key, "r") {
        Some(0x72)
    } else if str_eq_lower(key, "s") {
        Some(0x73)
    } else if str_eq_lower(key, "t") {
        Some(0x74)
    } else if str_eq_lower(key, "u") {
        Some(0x75)
    } else if str_eq_lower(key, "v") {
        Some(0x76)
    } else if str_eq_lower(key, "w") {
        Some(0x77)
    } else if str_eq_lower(key, "x") {
        Some(0x78)
    } else if str_eq_lower(key, "y") {
        Some(0x79)
    } else if str_eq_lower(key, "z") {
        Some(0x7a)
    } else if str_eq_lower(key, "0") {
        Some(0x30)
    } else if str_eq_lower(key, "1") {
        Some(0x31)
    } else if str_eq_lower(key, "2") {
        Some(0x32)
    } else if str_eq_lower(key, "3") {
        Some(0x33)
    } else if str_eq_lower(key, "4") {
        Some(0x34)
    } else if str_eq_lower(key, "5") {
        Some(0x35)
    } else if str_eq_lower(key, "6") {
        Some(0x36)
    } else if str_eq_lower(key, "7") {
        Some(0x37)
    } else if str_eq_lower(key, "8") {
        Some(0x38)
    } else if str_eq_lower(key, "9") {
        Some(0x39)
    } else if str_eq_lower(key, "space") {
        Some(0x20)
    } else if str_eq_lower(key, "enter") {
        Some(0xff0d)
    } else if str_eq_lower(key, "return") {
        Some(0xff0d)
    } else if str_eq_lower(key, "tab") {
        Some(0xff09)
    } else if str_eq_lower(key, "escape") {
        Some(0xff1b)
    } else if str_eq_lower(key, "backspace") {
        Some(0xff08)
    } else if str_eq_lower(key, "delete") {
        Some(0xffff)
    } else if str_eq_lower(key, "insert") {
        Some(0xff63)
    } else if str_eq_lower(key, "home") {
        Some(0xff50)
    } else if str_eq_lower(key, "end") {
        Some(0xff57)
    } else if str_eq_lower(key, "pageup") {
        Some(0xff55)
    } else if str_eq_lower(key, "pagedown") {
        Some(0xff56)
    } else if str_eq_lower(key, "left") {
        Some(0xff51)
    } else if str_eq_lower(key, "up") {
        Some(0xff52)
    } else if str_eq_lower(key, "right") {
        Some(0xff53)
    } else if str_eq_lower(key, "down") {
        Some(0xff54)
    } else if str_eq_lower(key, "f1") {
        Some(0xffbe)
    } else if str_eq_lower(key, "f2") {
        Some(0xffbf)
    } else if str_eq_lower(key, "f3") {
        Some(0xffc0)
    } else if str_eq_lower(key, "f4") {
        Some(0xffc1)
    } else if str_eq_lower(key, "f5") {
        Some(0xffc2)
    } else if str_eq_lower(key, "f6") {
        Some(0xffc3)
    } else if str_eq_lower(key, "f7") {
        Some(0xffc4)
    } else if str_eq_lower(key, "f8") {
        Some(0xffc5)
    } else if str_eq_lower(key, "f9") {
        Some(0xffc6)
    } else if str_eq_lower(key, "f10") {
        Some(0xffc7)
    } else if str_eq_lower(key, "f11") {
        Some(0xffc8)
    } else if str_eq_lower(key, "f12") {
        Some(0xffc9)
    } else if str_eq_lower(key, "-") {
        Some(0x2d)
    } else if str_eq_lower(key, "=") {
        Some(0x3d)
    } else if str_eq_lower(key, "[") {
        Some(0x5b)
    } else if str_eq_lower(key, "]") {
        Some(0x5d)
    } else if str_eq_lower(key, "\\") {
        Some(0x5c)
    } else if str_eq_lower(key, ";") {
        Some(0x3b)
    } else if str_eq_lower(key, "'") {
        Some(0x27)
    } else if str_eq_lower(key, "`") {
        Some(0x60)
    } else if str_eq_lower(key, ",") {
        Some(0x2c)
    } else if str_eq_lower(key, ".") {
        Some(0x2e)
    } else if str_eq_lower(key, "/") {
        Some(0x2f)
    } else {
        None
    }}

/// The X modifier bitmask of a modifier set: one bit per modifier,
/// composed independently.
pub open spec fn x11_modmask_of(m: Modifiers) -> u16 {
    let c = if m.control { X11_MOD_CONTROL } else { 0 };
    let a = if m.alt { X11_MOD_ALT } else { 0 };
    let s = if m.shift { X11_MOD_SHIFT } else { 0 };
    let p = if m.platform { X11_MOD_SUPER } else { 0 };
    c | a | s | p
}

/// Compose the X modifier bitmask for a modifier set.
pub fn keystroke_to_x11_modmask(m: &Modifiers) -> (r: u16)
    ensures
        r == x11_modmask_of(*m),
{
    let c: u16 = if m.control { X11_MOD_CONTROL } else { 0 };
    let a: u16 = if m.alt { X11_MOD_ALT } else { 0 };
    let s: u16 = if m.shift { X11_MOD_SHIFT } else { 0 };
    let p: u16 = if m.platform { X11_MOD_SUPER } else { 0 };
    c | a | s | p
}

/// Each modifier contributes exactly its own bit to the mask, whatever
/// the other modifiers are: the composition is independent and
/// order-blind.
pub proof fn lemma_x11_modmask_bits(m: Modifiers)
    ensures
        ((x11_modmask_of(m) & X11_MOD_CONTROL) != 0) == m.control,
        ((x11_modmask_of(m) & X11_MOD_ALT) != 0) == m.alt,
        ((x11_modmask_of(m) & X11_MOD_SHIFT) != 0) == m.shift,
        ((x11_modmask_of(m) & X11_MOD_SUPER) != 0) == m.platform,
{
    let c: u16 = if m.control { X11_MOD_CONTROL } else { 0 };
    let a: u16 = if m.alt { X11_MOD_ALT } else { 0 };
    let s: u16 = if m.shift { X11_MOD_SHIFT } else { 0 };
    let p: u16 = if m.platform { X11_MOD_SUPER } else { 0 };
    assert(x11_modmask_of(m) == (c | a | s | p));
    assert((((c | a | s | p) & 0x4u16) != 0) == (c == 0x4u16) && (((c | a | s | p) & 0x8u16) != 0)
        == (a == 0x8u16) && (((c | a | s | p) & 0x1u16) != 0) == (s == 0x1u16) && (((c | a | s | p)
        & 0x40u16) != 0) == (p == 0x40u16)) by (bit_vector)
        requires
            c == 0x4u16 || c == 0u16,
            a == 0x8u16 || a == 0u16,
            s == 0x1u16 || s == 0u16,
            p == 0x40u16 || p == 0u16,
    ;
}

/// The keyboard mapping reported by an X server: for each keycode from
/// `min_keycode` to `max_keycode`, a group of `keysyms_per_keycode` keysyms.
pub struct KeyboardMapping {
    pub min_keycode: u8,
    pub max_keycode: u8,
    pub keysyms_per_keycode: usize,
    pub keysyms: Vec<u32>,
}

impl KeyboardMapping {
    /// Shape of a well-formed reply: one full keysym group per keycode.
    pub open spec fn wf(self) -> bool {
        &&& self.min_keycode <= self.max_keycode
        &&& self.keysyms@.len() == (self.max_keycode - self.min_keycode + 1)
            * self.keysyms_per_keycode
    }

    /// Whether the group of the `i`-th keycode contains `keysym`.
    pub open spec fn group_has(self, i: int, keysym: u32) -> bool {
        exists|j: int|
            0 <= j < self.keysyms_per_keycode && #[trigger] self.keysyms@[i
                * self.keysyms_per_keycode + j] == keysym
    }
}

/// Resolve a keysym to the first keycode whose keysym group contains it,
/// scanning the keycode range in order; `None` when no group does.
pub fn x11_keycode_for_keysym(mapping: &KeyboardMapping, keysym: u32) -> (r: Option<u8>)
    requires
        mapping.wf(),
    ensures
        (match r {
            Some(kc) => mapping.min_keycode <= kc <= mapping.max_keycode && mapping.group_has(
                kc - mapping.min_keycode,
                keysym,
            ) && forall|i: int|
                0 <= i < kc - mapping.min_keycode ==> !mapping.group_has(i, keysym),
            None => forall|i: int|
                0 <= i <= mapping.max_keycode - mapping.min_keycode ==> !mapping.group_has(
                    i,
                    keysym,
                ),
        }),
{
    let kpk = mapping.keysyms_per_keycode;
    let count = (mapping.max_keycode - mapping.min_keycode) as usize + 1;
    let total = mapping.keysyms.len();
    if kpk == 0 {
        return None;
    }
    let mut i: usize = 0;
    while i < count
        invariant
            mapping.wf(),
            kpk == mapping.keysyms_per_keycode,
            kpk > 0,
            count == mapping.max_keycode - mapping.min_keycode + 1,
            i <= count,
            total == mapping.keysyms@.len(),
            mapping.keysyms@.len() == count * kpk,
            forall|v: int| 0 <= v < i ==> !mapping.group_has(v, keysym),
        decreases count - i,
    {
        proof {
            assert(i * kpk + kpk <= count * kpk) by (nonlinear_arith)
                requires
                    i < count,
                    kpk > 0,
            ;
        }
        let base = i * kpk;
        let mut j: usize = 0;
        while j < kpk
            invariant
                mapping.wf(),
                kpk == mapping.keysyms_per_keycode,
                count == mapping.max_keycode - mapping.min_keycode + 1,
                i < count,
                base == i * kpk,
                total == mapping.keysyms@.len(),
                base + kpk <= mapping.keysyms@.len(),
                j <= kpk,
                forall|v: int| 0 <= v < i ==> !mapping.group_has(v, keysym),
                forall|w: int| 0 <= w < j ==> #[trigger] mapping.keysyms@[i * kpk + w] != keysym,
            decreases kpk - j,
        {
            if mapping.keysyms[base + j] == keysym {
                proof {
                    assert(mapping.keysyms@[(i as int) * (kpk as int) + (j as int)] == keysym);
                    assert(mapping.group_has(i as int, keysym));
                }
                return Some(mapping.min_keycode + i as u8);
            }
            j = j + 1;
        }
        proof {
            assert(!mapping.group_has(i as int, keysym));
        }
        i = i + 1;
    }
    None
}

} // verus!
