//! Textual key-combination descriptors.
//!
//! A descriptor such as `"cmd-shift-k"` is a sequence of modifier tokens
//! joined by `-`, ending in exactly one base-key token. Modifier tokens are
//! recognized case-insensitively; the base key is lowercased and stored
//! verbatim (whether the key can actually be armed is decided later by the
//! platform key mappers).

use vstd::prelude::*;

use crate::chars::{lower_char, lower_char_spec, lower_seq, push_char, range_eq_lower};

verus! {

/// The set of modifier keys of a key combination.
///
/// `platform` stands for Cmd on macOS, Win on Windows and Super on Linux.
#[derive(Clone, Copy, Debug, PartialEq, Eq, Structural)]
pub struct Modifiers {
    pub control: bool,
    pub alt: bool,
    pub shift: bool,
    pub platform: bool,
}

/// The field-wise union of two modifier sets.
pub open spec fn union_mods(a: Modifiers, b: Modifiers) -> Modifiers {
    Modifiers {
        control: a.control || b.control,
        alt: a.alt || b.alt,
        shift: a.shift || b.shift,
        platform: a.platform || b.platform,
    }
}

impl Modifiers {
    /// The empty modifier set.
    pub fn none() -> (r: Modifiers)
        ensures
            r == (Modifiers { control: false, alt: false, shift: false, platform: false }),
    {
        Modifiers { control: false, alt: false, shift: false, platform: false }
    }
}

/// A parsed key combination: a canonical lowercase key name plus the
/// modifier set. Two keystrokes are equal exactly when the key name and the
/// full modifier set match.
#[derive(Debug)]
pub struct Keystroke {
    pub key: String,
    pub modifiers: Modifiers,
}

impl Clone for Keystroke {
    fn clone(&self) -> (r: Self)
        ensures
            r.key@ == self.key@,
            r.modifiers == self.modifiers,
    {
        Keystroke { key: self.key.clone(), modifiers: self.modifiers }
    }
}

impl PartialEq for Keystroke {
    fn eq(&self, other: &Keystroke) -> (r: bool) {
        self.key == other.key && self.modifiers == other.modifiers
    }
}

impl vstd::std_specs::cmp::PartialEqSpecImpl for Keystroke {
    open spec fn obeys_eq_spec() -> bool {
        true
    }

    open spec fn eq_spec(&self, other: &Keystroke) -> bool {
        self.key@ == other.key@ && self.modifiers == other.modifiers
    }
}

/// Why a descriptor failed to parse.
#[derive(Clone, Copy, Debug, PartialEq, Eq, Structural)]
pub enum ParseError {
    /// The descriptor string was empty.
    EmptyDescriptor,
    /// A token before the base key is not a recognized modifier name.
    UnrecognizedModifier,
}

/// The modifier set denoted by one token, or `None` if the token is not a
/// recognized modifier name. Recognition is case-insensitive:
/// `cmd`/`super`/`win` mean platform, `ctrl`/`control` mean control,
/// `alt`/`option` mean alt, and `shift` means shift.
pub open spec fn token_modifiers(tok: Seq<char>) -> Option<Modifiers> {
    let l = lower_seq(tok);
    if l == "cmd"@ || l == "super"@ || l == "win"@ {
        Some(Modifiers { control: false, alt: false, shift: false, platform: true })
    } else if l == "ctrl"@ || l == "control"@ {
        Some(Modifiers { control: true, alt: false, shift: false, platform: false })
    } else if l == "alt"@ || l == "option"@ {
        Some(Modifiers { control: false, alt: true, shift: false, platform: false })
    } else if l == "shift"@ {
        Some(Modifiers { control: false, alt: false, shift: true, platform: false })
    } else {
        None
    }
}

/// Index of the first `-` in `s`, or `-1` if there is none.
pub open spec fn first_dash(s: Seq<char>) -> int
    decreases s.len(),
{
    if s.len() == 0 {
        -1
    } else if s[0] == '-' {
        0
    } else if first_dash(s.subrange(1, s.len() as int)) < 0 {
        -1
    } else {
        first_dash(s.subrange(1, s.len() as int)) + 1
    }
}

pub proof fn lemma_first_dash_at(s: Seq<char>, d: int)
    requires
        0 <= d < s.len(),
        s[d] == '-',
        forall|k: int| 0 <= k < d ==> s[k] != '-',
    ensures
        first_dash(s) == d,
    decreases s.len(),
{
    if d > 0 {
        let t = s.subrange(1, s.len() as int);
        assert(forall|k: int| 0 <= k < t.len() ==> t[k] == s[k + 1]);
        lemma_first_dash_at(t, d - 1);
    }
}

pub proof fn lemma_first_dash_none(s: Seq<char>)
    requires
        forall|k: int| 0 <= k < s.len() ==> s[k] != '-',
    ensures
        first_dash(s) == -1,
    decreases s.len(),
{
    if s.len() > 0 {
        let t = s.subrange(1, s.len() as int);
        assert(forall|k: int| 0 <= k < t.len() ==> t[k] == s[k + 1]);
        lemma_first_dash_none(t);
    }
}

/// Parse of a non-empty descriptor: every token before the first remaining
/// `-` must be a recognized modifier; the token after the last `-` is the
/// base key, lowercased and taken verbatim.
pub open spec fn parse_rec(s: Seq<char>) -> Result<(Modifiers, Seq<char>), ParseError>
    decreases s.len(),
{
    let d0 = first_dash(s);
    if d0 < 0 {
        Ok((Modifiers { control: false, alt: false, shift: false, platform: false }, lower_seq(s)))
    } else {
        // first_dash is always below the length; the clip only serves the
        // termination measure
        let d = if d0 < s.len() { d0 } else { 0 };
        let tok = s.subrange(0, d);
        let rest = s.subrange(d + 1, s.len() as int);
        match token_modifiers(tok) {
            Some(m) => match parse_rec(rest) {
                Ok(p) => Ok((union_mods(m, p.0), p.1)),
                Err(e) => Err(e),
            },
            None => Err(ParseError::UnrecognizedModifier),
        }
    }
}

/// Every keystroke the parser yields carries a lowercase key name, so the
/// event-matching round trip applies to every parsed descriptor.
pub proof fn lemma_parsed_key_is_lowercase(s: Seq<char>)
    ensures
        (match parse_spec(s) {
            Ok(p) => lower_seq(p.1) == p.1,
            Err(_) => true,
        }),
    decreases s.len(),
{
    if s.len() == 0 {
    } else {
        let d0 = first_dash(s);
        if d0 < 0 {
            crate::chars::lemma_lower_seq_idempotent(s);
        } else {
            let d = if d0 < s.len() {
                d0
            } else {
                0
            };
            let rest = s.subrange(d + 1, s.len() as int);
            if rest.len() == 0 {
                crate::chars::lemma_lower_seq_idempotent(rest);
            }
            lemma_parsed_key_is_lowercase(rest);
        }
    }
}

/// What parsing a descriptor yields: the modifier set and the lowercased
/// base key, or the reason it fails. An empty string fails; so does any
/// token before the base key that is not a recognized modifier name.
pub open spec fn parse_spec(s: Seq<char>) -> Result<(Modifiers, Seq<char>), ParseError> {
    if s.len() == 0 {
        Err(ParseError::EmptyDescriptor)
    } else {
        parse_rec(s)
    }
}

/// Relates an executable parse result to `parse_spec`.
pub open spec fn parse_matches(s: Seq<char>, r: Result<Keystroke, ParseError>) -> bool {
    match parse_spec(s) {
        Ok(p) => match r {
            Ok(ks) => ks.modifiers == p.0 && ks.key@ == p.1,
            Err(_) => false,
        },
        Err(e) => match r {
            Ok(_) => false,
            Err(e2) => e2 == e,
        },
    }
}

/// Position of the first `-` at or after `pos`, or `n` if there is none.
fn find_dash(s: &str, pos: usize, n: usize) -> (j: usize)
    requires
        pos <= n,
        n == s@.len(),
    ensures
        pos <= j <= n,
        forall|k: int| pos <= k < j ==> s@[k] != '-',
        j < n ==> s@[j as int] == '-',
{
    let mut j = pos;
    while j < n
        invariant
            pos <= j <= n,
            n == s@.len(),
            forall|k: int| pos <= k < j ==> s@[k] != '-',
        decreases n - j,
    {
        if s.get_char(j) == '-' {
            return j;
        }
        j = j + 1;
    }
    j
}

/// The characters of `s` between `from` and `to`, lowercased, as a `String`.
fn lower_range_string(s: &str, from: usize, to: usize) -> (r: String)
    requires
        from <= to <= s@.len(),
    ensures
        r@ == lower_seq(s@.subrange(from as int, to as int)),
{
    let mut out = String::new();
    let mut k = from;
    while k < to
        invariant
            from <= k <= to <= s@.len(),
            out@ == lower_seq(s@.subrange(from as int, k as int)),
        decreases to - k,
    {
        let c = lower_char(s.get_char(k));
        push_char(&mut out, c);
        proof {
            let before = s@.subrange(from as int, k as int);
            let after = s@.subrange(from as int, k + 1);
            assert(lower_seq(before).push(lower_char_spec(s@[k as int])) =~= lower_seq(after)) by {
                assert(forall|j: int| 0 <= j < before.len() ==> after[j] == before[j]);
                assert(after[k - from] == s@[k as int]);
            }
        }
        k = k + 1;
    }
    proof {
        assert(s@.subrange(from as int, to as int) == s@.subrange(from as int, to as int));
    }
    out
}

/// The modifier set denoted by the token of `s` between `from` and `to`, if
/// it is a recognized modifier name.
fn match_modifier_token(s: &str, from: usize, to: usize) -> (r: Option<Modifiers>)
    requires
        from <= to <= s@.len(),
    ensures
        r == token_modifiers(s@.subrange(from as int, to as int)),
{
    proof {
        reveal_strlit("cmd");
        reveal_strlit("super");
        reveal_strlit("win");
        reveal_strlit("ctrl");
        reveal_strlit("control");
        reveal_strlit("alt");
        reveal_strlit("option");
        reveal_strlit("shift");
    }
    if range_eq_lower(s, from, to, "cmd") || range_eq_lower(s, from, to, "super")
        || range_eq_lower(s, from, to, "win") {
        Some(Modifiers { control: false, alt: false, shift: false, platform: true })
    } else if range_eq_lower(s, from, to, "ctrl") || range_eq_lower(s, from, to, "control") {
        Some(Modifiers { control: true, alt: false, shift: false, platform: false })
    } else if range_eq_lower(s, from, to, "alt") || range_eq_lower(s, from, to, "option") {
        Some(Modifiers { control: false, alt: true, shift: false, platform: false })
    } else if range_eq_lower(s, from, to, "shift") {
        Some(Modifiers { control: false, alt: false, shift: true, platform: false })
    } else {
        None
    }
}

impl Keystroke {
    /// Parse a descriptor such as `"cmd-shift-k"`.
    ///
    /// Fails when the string is empty or when a token before the base key is
    /// not a recognized modifier name; never on the base key itself, whose
    /// validity is decided by the platform key mappers.
    pub fn parse(source: &str) -> (r: Result<Keystroke, ParseError>)
        ensures
            parse_matches(source@, r),
    {
        let n = source.unicode_len();
        if n == 0 {
            return Err(ParseError::EmptyDescriptor);
        }
        let mut mods = Modifiers::none();
        let mut pos: usize = 0;
        proof {
            assert(source@.subrange(0, n as int) =~= source@);
        }
        loop
            invariant
                pos <= n,
                n == source@.len(),
                n >= 1,
                (match parse_rec(source@.subrange(pos as int, n as int)) {
                    Ok(p) => parse_rec(source@) == Ok::<_, ParseError>((
                        union_mods(mods, p.0),
                        p.1,
                    )),
                    Err(e) => parse_rec(source@) == Err::<(Modifiers, Seq<char>), _>(e),
                }),
            decreases n - pos,
        {
            let rem_len = n - pos;
            let ghost rem = source@.subrange(pos as int, n as int);
            let j = find_dash(source, pos, n);
            if j == n {
                // no further delimiter: the remainder is the base key
                proof {
                    assert(forall|k: int| 0 <= k < rem.len() ==> rem[k] == source@[pos + k]);
                    lemma_first_dash_none(rem);
                }
                let key = lower_range_string(source, pos, n);
                return Ok(Keystroke { key, modifiers: mods });
            }
            // delimiter at j: the token before it must be a modifier
            proof {
                assert(forall|k: int| 0 <= k < rem.len() ==> rem[k] == source@[pos + k]);
                lemma_first_dash_at(rem, j - pos);
                assert(rem.subrange(0, j - pos) =~= source@.subrange(pos as int, j as int));
                assert(rem.subrange(j - pos + 1, rem.len() as int) =~= source@.subrange(
                    j + 1,
                    n as int,
                ));
            }
            match match_modifier_token(source, pos, j) {
                Some(m) => {
                    let prev = mods;
                    if m.control {
                        mods.control = true;
                    }
                    if m.alt {
                        mods.alt = true;
                    }
                    if m.shift {
                        mods.shift = true;
                    }
                    if m.platform {
                        mods.platform = true;
                    }
                    proof {
                        assert(mods == union_mods(prev, m));
                    }
                    pos = j + 1;
                },
                None => {
                    return Err(ParseError::UnrecognizedModifier);
                },
            }
        }
    }
}

} // verus!
