//! Character and string helpers shared by the descriptor parser and the
//! platform key mappers: ASCII lowercasing and comparisons over `Seq<char>`.

use vstd::prelude::*;

verus! {

/// ASCII lowercasing of a single character; other characters are unchanged.
pub open spec fn lower_char_spec(c: char) -> char {
    if c == 'A' { 'a' }
    else if c == 'B' { 'b' }
    else if c == 'C' { 'c' }
    else if c == 'D' { 'd' }
    else if c == 'E' { 'e' }
    else if c == 'F' { 'f' }
    else if c == 'G' { 'g' }
    else if c == 'H' { 'h' }
    else if c == 'I' { 'i' }
    else if c == 'J' { 'j' }
    else if c == 'K' { 'k' }
    else if c == 'L' { 'l' }
    else if c == 'M' { 'm' }
    else if c == 'N' { 'n' }
    else if c == 'O' { 'o' }
    else if c == 'P' { 'p' }
    else if c == 'Q' { 'q' }
    else if c == 'R' { 'r' }
    else if c == 'S' { 's' }
    else if c == 'T' { 't' }
    else if c == 'U' { 'u' }
    else if c == 'V' { 'v' }
    else if c == 'W' { 'w' }
    else if c == 'X' { 'x' }
    else if c == 'Y' { 'y' }
    else if c == 'Z' { 'z' }
    else { c }
}

/// ASCII lowercasing of a character sequence.
pub open spec fn lower_seq(s: Seq<char>) -> Seq<char> {
    s.map_values(|c: char| lower_char_spec(c))
}

/// Lowercase one character (ASCII letters only).
pub fn lower_char(c: char) -> (r: char)
    ensures
        r == lower_char_spec(c),
{
    if c == 'A' { 'a' }
    else if c == 'B' { 'b' }
    else if c == 'C' { 'c' }
    else if c == 'D' { 'd' }
    else if c == 'E' { 'e' }
    else if c == 'F' { 'f' }
    else if c == 'G' { 'g' }
    else if c == 'H' { 'h' }
    else if c == 'I' { 'i' }
    else if c == 'J' { 'j' }
    else if c == 'K' { 'k' }
    else if c == 'L' { 'l' }
    else if c == 'M' { 'm' }
    else if c == 'N' { 'n' }
    else if c == 'O' { 'o' }
    else if c == 'P' { 'p' }
    else if c == 'Q' { 'q' }
    else if c == 'R' { 'r' }
    else if c == 'S' { 's' }
    else if c == 'T' { 't' }
    else if c == 'U' { 'u' }
    else if c == 'V' { 'v' }
    else if c == 'W' { 'w' }
    else if c == 'X' { 'x' }
    else if c == 'Y' { 'y' }
    else if c == 'Z' { 'z' }
    else { c }
}

/// Lowercasing is idempotent: a lowercased sequence is unchanged by
/// lowercasing again.
pub proof fn lemma_lower_seq_idempotent(s: Seq<char>)
    ensures
        lower_seq(lower_seq(s)) == lower_seq(s),
{
    assert forall|j: int| 0 <= j < s.len() implies lower_seq(lower_seq(s))[j] == lower_seq(s)[j] by {
        assert(lower_seq(s)[j] == lower_char_spec(s[j]));
        assert(lower_seq(lower_seq(s))[j] == lower_char_spec(lower_char_spec(s[j])));
    }
    assert(lower_seq(lower_seq(s)) =~= lower_seq(s));
}

/// Relies on `String::push` of std: appends exactly one character.
#[verifier::external_body]
pub fn push_char(s: &mut String, c: char)
    ensures
        final(s)@ == old(s)@.push(c),
{
    s.push(c);
}

/// The whole of `s`, lowercased, as a `String`.
pub fn lower_string(s: &str) -> (r: String)
    ensures
        r@ == lower_seq(s@),
{
    let n = s.unicode_len();
    let mut out = String::new();
    let mut k: usize = 0;
    while k < n
        invariant
            n == s@.len(),
            k <= n,
            out@ == lower_seq(s@.subrange(0, k as int)),
        decreases n - k,
    {
        let c = lower_char(s.get_char(k));
        push_char(&mut out, c);
        proof {
            let before = s@.subrange(0, k as int);
            let after = s@.subrange(0, k + 1);
            assert(lower_seq(before).push(lower_char_spec(s@[k as int])) =~= lower_seq(after)) by {
                assert(forall|j: int| 0 <= j < before.len() ==> after[j] == before[j]);
                assert(after[k as int] == s@[k as int]);
            }
        }
        k = k + 1;
    }
    proof {
        assert(s@.subrange(0, n as int) =~= s@);
    }
    out
}

/// Whether the characters of `s` between `from` and `to`, lowercased, spell
/// exactly the word `lit`.
pub fn range_eq_lower(s: &str, from: usize, to: usize, lit: &str) -> (r: bool)
    requires
        from <= to <= s@.len(),
    ensures
        r <==> lower_seq(s@.subrange(from as int, to as int)) == lit@,
{
    let lit_len = lit.unicode_len();
    if to - from != lit_len {
        proof {
            assert(lower_seq(s@.subrange(from as int, to as int)).len() == to - from);
        }
        return false;
    }
    let mut k: usize = 0;
    while k < lit_len
        invariant
            from <= to <= s@.len(),
            to - from == lit_len == lit@.len(),
            k <= lit_len,
            forall|j: int| 0 <= j < k ==> lower_char_spec(s@[from + j]) == lit@[j],
        decreases lit_len - k,
    {
        let c = lower_char(s.get_char(from + k));
        let l = lit.get_char(k);
        if c != l {
            proof {
                let sub = s@.subrange(from as int, to as int);
                assert(lower_seq(sub)[k as int] == lower_char_spec(sub[k as int]));
                assert(sub[k as int] == s@[from + k]);
            }
            return false;
        }
        k = k + 1;
    }
    proof {
        let sub = s@.subrange(from as int, to as int);
        assert forall|j: int| 0 <= j < sub.len() implies lower_seq(sub)[j] == lit@[j] by {
            assert(lower_seq(sub)[j] == lower_char_spec(sub[j]));
            assert(sub[j] == s@[from + j]);
        }
        assert(lower_seq(sub) =~= lit@);
    }
    true
}

/// Whether the characters of `s` between `from` and `to` spell exactly `lit`.
pub fn range_eq(s: &str, from: usize, to: usize, lit: &str) -> (r: bool)
    requires
        from <= to <= s@.len(),
    ensures
        r <==> s@.subrange(from as int, to as int) == lit@,
{
    let lit_len = lit.unicode_len();
    if to - from != lit_len {
        return false;
    }
    let mut k: usize = 0;
    while k < lit_len
        invariant
            from <= to <= s@.len(),
            to - from == lit_len == lit@.len(),
            k <= lit_len,
            forall|j: int| 0 <= j < k ==> s@[from + j] == lit@[j],
        decreases lit_len - k,
    {
        let c = s.get_char(from + k);
        let l = lit.get_char(k);
        if c != l {
            proof {
                let sub = s@.subrange(from as int, to as int);
                assert(sub[k as int] == s@[from + k]);
            }
            return false;
        }
        k = k + 1;
    }
    proof {
        let sub = s@.subrange(from as int, to as int);
        assert(sub =~= lit@);
    }
    true
}

/// Whether the whole of `s`, lowercased, spells exactly the word `lit`.
pub fn str_eq_lower(s: &str, lit: &str) -> (r: bool)
    ensures
        r <==> lower_seq(s@) == lit@,
{
    let n = s.unicode_len();
    proof {
        assert(s@.subrange(0, s@.len() as int) =~= s@);
    }
    range_eq_lower(s, 0, n, lit)
}

/// Whether `pat` occurs in `s` as a contiguous run of characters.
pub open spec fn has_substring(s: Seq<char>, pat: Seq<char>) -> bool {
    exists|i: int| 0 <= i <= s.len() - pat.len() && #[trigger] s.subrange(i, i + pat.len()) == pat
}

/// Whether the word `pat` occurs anywhere in `s`.
pub fn contains_str(s: &str, pat: &str) -> (r: bool)
    ensures
        r == has_substring(s@, pat@),
{
    let n = s.unicode_len();
    let m = pat.unicode_len();
    if m > n {
        return false;
    }
    if m == 0 {
        proof {
            assert(s@.subrange(0, 0 + pat@.len() as int) =~= pat@);
        }
        return true;
    }
    let mut i: usize = 0;
    while i <= n - m
        invariant
            n == s@.len(),
            m == pat@.len(),
            0 < m <= n,
            i <= n - m + 1,
            forall|k: int| 0 <= k < i ==> #[trigger] s@.subrange(k, k + pat@.len()) != pat@,
        decreases n - m - i + 1,
    {
        if range_eq(s, i, i + m, pat) {
            return true;
        }
        i = i + 1;
    }
    false
}

/// Whether two strings hold the same characters.
pub fn str_eq(a: &str, b: &str) -> (r: bool)
    ensures
        r <==> a@ == b@,
{
    let n = a.unicode_len();
    if n != b.unicode_len() {
        return false;
    }
    let mut k: usize = 0;
    while k < n
        invariant
            n == a@.len() == b@.len(),
            k <= n,
            forall|j: int| 0 <= j < k ==> a@[j] == b@[j],
        decreases n - k,
    {
        if a.get_char(k) != b.get_char(k) {
            return false;
        }
        k = k + 1;
    }
    proof {
        assert(a@ =~= b@);
    }
    true
}

} // verus!
