//! Event-level key matching for the macOS backend.
//!
//! The platform offers no global-hotkey registration call, so an incoming
//! key-down event is normalized to the same key-name vocabulary that
//! descriptors use and tested against every registered binding.

use vstd::prelude::*;

use crate::chars::{lower_seq, lower_string, str_eq};
use crate::idmap::IdMap;
use crate::keystroke::Keystroke;

verus! {

/// The parts of a native key event that matching reads: the event kind,
/// its modifier flags, and its layout-independent characters (ignoring
/// modifiers).
pub struct KeyEvent {
    pub is_key_down: bool,
    pub command: bool,
    pub control: bool,
    pub alt: bool,
    pub shift: bool,
    pub characters: String,
}

/// The named-key vocabulary form of an event's character string: special
/// event characters (control characters and the function-key code points)
/// become the names that descriptors use; anything else is unchanged.
pub open spec fn normalized_key(s: Seq<char>) -> Seq<char> {
    if s == " "@ { "space"@ }
    else if s == "\t"@ { "tab"@ }
    else if s == "\r"@ { "enter"@ }
    else if s == "\n"@ { "enter"@ }
    else if s == "\u{1b}"@ { "escape"@ }
    else if s == "\u{7f}"@ { "backspace"@ }
    else if s == "\u{f700}"@ { "up"@ }
    else if s == "\u{f701}"@ { "down"@ }
    else if s == "\u{f702}"@ { "left"@ }
    else if s == "\u{f703}"@ { "right"@ }
    else if s == "\u{f728}"@ { "delete"@ }
    else if s == "\u{f729}"@ { "home"@ }
    else if s == "\u{f72b}"@ { "end"@ }
    else if s == "\u{f72c}"@ { "pageup"@ }
    else if s == "\u{f72d}"@ { "pagedown"@ }
    else { s }
}

/// Map a special event character string to its descriptor key name;
/// anything outside the table comes back unchanged.
pub fn normalize_key_name<'a>(char_key: &'a str) -> (r: &'a str)
    ensures
        r@ == normalized_key(char_key@),
{
    if str_eq(char_key, " ") { "space" }
    else if str_eq(char_key, "\t") { "tab" }
    else if str_eq(char_key, "\r") { "enter" }
    else if str_eq(char_key, "\n") { "enter" }
    else if str_eq(char_key, "\u{1b}") { "escape" }
    else if str_eq(char_key, "\u{7f}") { "backspace" }
    else if str_eq(char_key, "\u{f700}") { "up" }
    else if str_eq(char_key, "\u{f701}") { "down" }
    else if str_eq(char_key, "\u{f702}") { "left" }
    else if str_eq(char_key, "\u{f703}") { "right" }
    else if str_eq(char_key, "\u{f728}") { "delete" }
    else if str_eq(char_key, "\u{f729}") { "home" }
    else if str_eq(char_key, "\u{f72b}") { "end" }
    else if str_eq(char_key, "\u{f72c}") { "pageup" }
    else if str_eq(char_key, "\u{f72d}") { "pagedown" }
    else { char_key }
}

/// Whether a key-down event realizes a keystroke: the event must be a
/// key-down, the four modifier flags must match exactly, and the event's
/// characters, lowercased, must equal the keystroke's key either verbatim
/// or after normalization to the named-key vocabulary.
pub open spec fn event_matches(ks: Keystroke, ev: KeyEvent) -> bool {
    &&& ev.is_key_down
    &&& ks.modifiers.platform == ev.command
    &&& ks.modifiers.control == ev.control
    &&& ks.modifiers.alt == ev.alt
    &&& ks.modifiers.shift == ev.shift
    &&& (lower_seq(ev.characters@) == lower_seq(ks.key@) || normalized_key(
        lower_seq(ev.characters@),
    ) == lower_seq(ks.key@))
}

/// Test one keystroke against one event.
pub fn keystroke_matches_event(ks: &Keystroke, ev: &KeyEvent) -> (r: bool)
    ensures
        r == event_matches(*ks, *ev),
{
    if !ev.is_key_down {
        return false;
    }
    if ks.modifiers.platform != ev.command || ks.modifiers.control != ev.control
        || ks.modifiers.alt != ev.alt || ks.modifiers.shift != ev.shift {
        return false;
    }
    let event_key = lower_string(ev.characters.as_str());
    let target_key = lower_string(ks.key.as_str());
    if event_key == target_key {
        return true;
    }
    let normalized = normalize_key_name(event_key.as_str());
    str_eq(normalized, target_key.as_str())
}

/// Scan the registered bindings in stored order and report the id of the
/// first one the event realizes, or `None` when the event realizes none.
pub fn find_matching_hotkey(registrations: &IdMap<Keystroke>, ev: &KeyEvent) -> (r: Option<u32>)
    ensures
        (match r {
            Some(id) => exists|i: int|
                0 <= i < registrations.entries_seq().len() && (#[trigger] registrations.entries_seq()[i]).0
                    == id && event_matches(registrations.entries_seq()[i].1, *ev) && forall|k: int|
                    0 <= k < i ==> !event_matches(
                        (#[trigger] registrations.entries_seq()[k]).1,
                        *ev,
                    ),
            None => forall|i: int|
                0 <= i < registrations.entries_seq().len() ==> !event_matches(
                    (#[trigger] registrations.entries_seq()[i]).1,
                    *ev,
                ),
        }),
{
    let n = registrations.entry_count();
    let mut i: usize = 0;
    while i < n
        invariant
            n == registrations.entries_seq().len(),
            i <= n,
            forall|k: int|
                0 <= k < i ==> !event_matches((#[trigger] registrations.entries_seq()[k]).1, *ev),
        decreases n - i,
    {
        let entry = registrations.entry_at(i);
        if keystroke_matches_event(&entry.1, ev) {
            return Some(entry.0);
        }
        i = i + 1;
    }
    None
}

/// The characters a key-down event for a key name carries: the special
/// event character for the named keys of the vocabulary, the name itself
/// for every other key.
pub open spec fn event_characters_for(key: Seq<char>) -> Seq<char> {
    if key == "space"@ { " "@ }
    else if key == "tab"@ { "\t"@ }
    else if key == "enter"@ { "\r"@ }
    else if key == "escape"@ { "\u{1b}"@ }
    else if key == "backspace"@ { "\u{7f}"@ }
    else if key == "up"@ { "\u{f700}"@ }
    else if key == "down"@ { "\u{f701}"@ }
    else if key == "left"@ { "\u{f702}"@ }
    else if key == "right"@ { "\u{f703}"@ }
    else if key == "delete"@ { "\u{f728}"@ }
    else if key == "home"@ { "\u{f729}"@ }
    else if key == "end"@ { "\u{f72b}"@ }
    else if key == "pageup"@ { "\u{f72c}"@ }
    else if key == "pagedown"@ { "\u{f72d}"@ }
    else { key }
}

/// Round trip of the mapper: a key-down event that carries the characters
/// the key name stands for, with the same modifier flags, realizes the
/// keystroke. This holds for every lowercase key name, named or verbatim.
pub proof fn lemma_event_round_trip(ks: Keystroke, ev: KeyEvent)
    requires
        ev.is_key_down,
        ev.command == ks.modifiers.platform,
        ev.control == ks.modifiers.control,
        ev.alt == ks.modifiers.alt,
        ev.shift == ks.modifiers.shift,
        lower_seq(ks.key@) == ks.key@,
        ev.characters@ == event_characters_for(ks.key@),
    ensures
        event_matches(ks, ev),
{
    reveal_strlit("space");
    reveal_strlit("tab");
    reveal_strlit("enter");
    reveal_strlit("escape");
    reveal_strlit("backspace");
    reveal_strlit("up");
    reveal_strlit("down");
    reveal_strlit("left");
    reveal_strlit("right");
    reveal_strlit("delete");
    reveal_strlit("home");
    reveal_strlit("end");
    reveal_strlit("pageup");
    reveal_strlit("pagedown");
    reveal_strlit(" ");
    reveal_strlit("\t");
    reveal_strlit("\r");
    reveal_strlit("\n");
    reveal_strlit("\u{1b}");
    reveal_strlit("\u{7f}");
    reveal_strlit("\u{f700}");
    reveal_strlit("\u{f701}");
    reveal_strlit("\u{f702}");
    reveal_strlit("\u{f703}");
    reveal_strlit("\u{f728}");
    reveal_strlit("\u{f729}");
    reveal_strlit("\u{f72b}");
    reveal_strlit("\u{f72c}");
    reveal_strlit("\u{f72d}");
    // materialize the contents of the single-character literals, so that
    // the disequalities between them are decided
    assert(" "@[0] == ' ');
    assert("\t"@[0] == '\t');
    assert("\r"@[0] == '\r');
    assert("\n"@[0] == '\n');
    assert("\u{1b}"@[0] == '\u{1b}');
    assert("\u{7f}"@[0] == '\u{7f}');
    assert("\u{f700}"@[0] == '\u{f700}');
    assert("\u{f701}"@[0] == '\u{f701}');
    assert("\u{f702}"@[0] == '\u{f702}');
    assert("\u{f703}"@[0] == '\u{f703}');
    assert("\u{f728}"@[0] == '\u{f728}');
    assert("\u{f729}"@[0] == '\u{f729}');
    assert("\u{f72b}"@[0] == '\u{f72b}');
    assert("\u{f72c}"@[0] == '\u{f72c}');
    assert("\u{f72d}"@[0] == '\u{f72d}');
    let key = ks.key@;
    let chars = ev.characters@;
    if chars == key {
        assert(lower_seq(chars) == lower_seq(key));
    } else {
        // a named key: its event character is a single non-letter, fixed
        // under lowercasing, and normalization maps it back to the name
        assert(lower_seq(chars) =~= chars) by {
            assert(forall|j: int|
                0 <= j < chars.len() ==> lower_seq(chars)[j] == crate::chars::lower_char_spec(
                    chars[j],
                ));
        }
        if key == "space"@ {
            assert(chars == " "@);
            assert(normalized_key(chars) == "space"@);
            assert(normalized_key(chars) == key);
        } else if key == "tab"@ {
            assert(chars == "\t"@);
            assert(normalized_key(chars) == "tab"@);
            assert(normalized_key(chars) == key);
        } else if key == "enter"@ {
            assert(chars == "\r"@);
            assert(normalized_key(chars) == "enter"@);
            assert(normalized_key(chars) == key);
        } else if key == "escape"@ {
            assert(chars == "\u{1b}"@);
            assert(normalized_key(chars) == "escape"@);
            assert(normalized_key(chars) == key);
        } else if key == "backspace"@ {
            assert(chars == "\u{7f}"@);
            assert(normalized_key(chars) == "backspace"@);
            assert(normalized_key(chars) == key);
        } else if key == "up"@ {
            assert(chars == "\u{f700}"@);
            assert(normalized_key(chars) == "up"@);
            assert(normalized_key(chars) == key);
        } else if key == "down"@ {
            assert(chars == "\u{f701}"@);
            assert(normalized_key(chars) == "down"@);
            assert(normalized_key(chars) == key);
        } else if key == "left"@ {
            assert(chars == "\u{f702}"@);
            assert(normalized_key(chars) == "left"@);
            assert(normalized_key(chars) == key);
        } else if key == "right"@ {
            assert(chars == "\u{f703}"@);
            assert(normalized_key(chars) == "right"@);
            assert(normalized_key(chars) == key);
        } else if key == "delete"@ {
            assert(chars == "\u{f728}"@);
            assert(normalized_key(chars) == "delete"@);
            assert(normalized_key(chars) == key);
        } else if key == "home"@ {
            assert(chars == "\u{f729}"@);
            assert(normalized_key(chars) == "home"@);
            assert(normalized_key(chars) == key);
        } else if key == "end"@ {
            assert(chars == "\u{f72b}"@);
            assert(normalized_key(chars) == "end"@);
            assert(normalized_key(chars) == key);
        } else if key == "pageup"@ {
            assert(chars == "\u{f72c}"@);
            assert(normalized_key(chars) == "pageup"@);
            assert(normalized_key(chars) == key);
        } else if key == "pagedown"@ {
            assert(chars == "\u{f72d}"@);
            assert(normalized_key(chars) == "pagedown"@);
            assert(normalized_key(chars) == key);
        } else {
            assert(chars == key);
        }
    }
}

} // verus!
