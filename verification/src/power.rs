//! Parsing of a dbus method-call reply: the output must be valid UTF-8;
//! the first line whose trimmed content starts with `uint32` decides, and
//! the unsigned number after the word is read. The shell runs the dbus
//! tool and hands its raw output here.

use vstd::prelude::*;

verus! {

/// ASCII whitespace, as trimming removes it.
pub open spec fn is_ascii_space(b: u8) -> bool {
    b == 32 || (9 <= b && b <= 13)
}

/// An ASCII decimal digit.
pub open spec fn is_ascii_digit(b: u8) -> bool {
    48 <= b <= 57
}

/// The bytes with leading ASCII whitespace removed.
pub open spec fn trim_front(s: Seq<u8>) -> Seq<u8>
    decreases s.len(),
{
    if s.len() > 0 && is_ascii_space(s[0]) {
        trim_front(s.subrange(1, s.len() as int))
    } else {
        s
    }
}

/// The bytes with trailing ASCII whitespace removed.
pub open spec fn trim_back(s: Seq<u8>) -> Seq<u8>
    decreases s.len(),
{
    if s.len() > 0 && is_ascii_space(s[s.len() - 1]) {
        trim_back(s.subrange(0, s.len() - 1))
    } else {
        s
    }
}

/// The bytes with ASCII whitespace removed at both ends.
pub open spec fn trim_spaces(s: Seq<u8>) -> Seq<u8> {
    trim_back(trim_front(s))
}

/// Whether every byte is a decimal digit.
pub open spec fn all_digits(s: Seq<u8>) -> bool {
    forall|k: int| 0 <= k < s.len() ==> is_ascii_digit(#[trigger] s[k])
}

/// The decimal value of a digit string.
pub open spec fn digits_value(s: Seq<u8>) -> int
    decreases s.len(),
{
    if s.len() == 0 {
        0
    } else {
        digits_value(s.drop_last()) * 10 + (s.last() - 48)
    }
}

/// What parsing a `u32` from the bytes yields: the decimal value when the
/// bytes are one or more digits and the value fits; nothing otherwise.
pub open spec fn parse_u32_spec(s: Seq<u8>) -> Option<u32> {
    if s.len() > 0 && all_digits(s) && digits_value(s) <= u32::MAX {
        Some(digits_value(s) as u32)
    } else {
        None
    }
}

/// Whether the bytes start with the ASCII word `uint32`.
pub open spec fn uint32_prefix(s: Seq<u8>) -> bool {
    s.len() >= 6 && s[0] == 117 && s[1] == 105 && s[2] == 110 && s[3] == 116 && s[4] == 51 && s[5]
        == 50
}

/// Index of the first newline byte, or `-1` if there is none.
pub open spec fn first_newline(s: Seq<u8>) -> int
    decreases s.len(),
{
    if s.len() == 0 {
        -1
    } else if s[0] == 10 {
        0
    } else if first_newline(s.subrange(1, s.len() as int)) < 0 {
        -1
    } else {
        first_newline(s.subrange(1, s.len() as int)) + 1
    }
}

/// The number a single `uint32` line carries.
pub open spec fn uint32_line_value(line: Seq<u8>) -> Option<u32> {
    let t = trim_spaces(line);
    parse_u32_spec(trim_spaces(t.subrange(6, t.len() as int)))
}

/// What scanning the reply's lines yields: the first line whose trimmed
/// content starts with `uint32` decides the outcome — the number after
/// the word, or nothing when what follows is not a number; a reply with
/// no such line yields nothing.
pub open spec fn uint32_scan_spec(s: Seq<u8>) -> Option<u32>
    decreases s.len(),
{
    let nl0 = first_newline(s);
    if nl0 < 0 {
        if uint32_prefix(trim_spaces(s)) {
            uint32_line_value(s)
        } else {
            None
        }
    } else {
        // the first newline is always below the length; the clip only
        // serves the termination measure
        let nl = if nl0 < s.len() { nl0 } else { 0 };
        let line = s.subrange(0, nl);
        if uint32_prefix(trim_spaces(line)) {
            uint32_line_value(line)
        } else {
            uint32_scan_spec(s.subrange(nl + 1, s.len() as int))
        }
    }
}

/// What parsing the reply yields: nothing for output that is not valid
/// UTF-8; otherwise the line scan decides.
pub open spec fn parse_dbus_spec(s: Seq<u8>) -> Option<u32> {
    if vstd::utf8::valid_utf8(s) {
        uint32_scan_spec(s)
    } else {
        None
    }
}

/// Relies on `core::str::from_utf8` of std: it accepts a byte slice
/// exactly when the bytes are a valid UTF-8 encoding.
#[verifier::external_body]
fn utf8_valid(bytes: &[u8]) -> (r: bool)
    ensures
        r == vstd::utf8::valid_utf8(bytes@),
{
    core::str::from_utf8(bytes).is_ok()
}

proof fn lemma_first_newline_at(s: Seq<u8>, d: int)
    requires
        0 <= d < s.len(),
        s[d] == 10,
        forall|k: int| 0 <= k < d ==> s[k] != 10,
    ensures
        first_newline(s) == d,
    decreases s.len(),
{
    if d > 0 {
        let t = s.subrange(1, s.len() as int);
        assert(forall|k: int| 0 <= k < t.len() ==> t[k] == s[k + 1]);
        lemma_first_newline_at(t, d - 1);
    }
}

proof fn lemma_first_newline_none(s: Seq<u8>)
    requires
        forall|k: int| 0 <= k < s.len() ==> s[k] != 10,
    ensures
        first_newline(s) == -1,
    decreases s.len(),
{
    if s.len() > 0 {
        let t = s.subrange(1, s.len() as int);
        assert(forall|k: int| 0 <= k < t.len() ==> t[k] == s[k + 1]);
        lemma_first_newline_none(t);
    }
}

proof fn lemma_trim_front_at(s: Seq<u8>, a: int)
    requires
        0 <= a <= s.len(),
        forall|k: int| 0 <= k < a ==> is_ascii_space(#[trigger] s[k]),
        a == s.len() || !is_ascii_space(s[a]),
    ensures
        trim_front(s) == s.subrange(a, s.len() as int),
    decreases a,
{
    if a == 0 {
        assert(s.subrange(0, s.len() as int) =~= s);
    } else {
        let t = s.subrange(1, s.len() as int);
        assert(forall|k: int| 0 <= k < t.len() ==> t[k] == s[k + 1]);
        lemma_trim_front_at(t, a - 1);
        assert(t.subrange(a - 1, t.len() as int) =~= s.subrange(a, s.len() as int));
    }
}

proof fn lemma_trim_back_at(s: Seq<u8>, b: int)
    requires
        0 <= b <= s.len(),
        forall|k: int| b <= k < s.len() ==> is_ascii_space(#[trigger] s[k]),
        b == 0 || !is_ascii_space(s[b - 1]),
    ensures
        trim_back(s) == s.subrange(0, b),
    decreases s.len() - b,
{
    if b == s.len() {
        assert(s.subrange(0, s.len() as int) =~= s);
        if s.len() > 0 && is_ascii_space(s[s.len() - 1]) {
            assert(b == 0 || !is_ascii_space(s[b - 1]));
            assert(false);
        }
    } else {
        let t = s.subrange(0, s.len() - 1);
        assert(forall|k: int| 0 <= k < t.len() ==> t[k] == s[k]);
        lemma_trim_back_at(t, b);
        assert(t.subrange(0, b) =~= s.subrange(0, b));
    }
}

/// Digit strings only grow in value as digits are appended.
proof fn lemma_digits_value_mono(s: Seq<u8>, k: int)
    requires
        all_digits(s),
        0 <= k <= s.len(),
    ensures
        digits_value(s) >= digits_value(s.subrange(0, k)),
        digits_value(s) >= 0,
    decreases s.len() - k,
{
    if k == s.len() {
        assert(s.subrange(0, k) =~= s);
        lemma_digits_value_nonneg(s);
    } else {
        lemma_digits_value_mono(s, k + 1);
        let p = s.subrange(0, k + 1);
        let q = s.subrange(0, k);
        assert(p.drop_last() =~= q);
        lemma_digits_value_nonneg(q);
        assert(digits_value(p) == digits_value(q) * 10 + (p.last() - 48));
        assert(digits_value(q) * 10 >= digits_value(q)) by (nonlinear_arith)
            requires
                digits_value(q) >= 0,
        ;
        assert(48 <= p.last() <= 57);
    }
}

proof fn lemma_digits_value_nonneg(s: Seq<u8>)
    requires
        all_digits(s),
    ensures
        digits_value(s) >= 0,
    decreases s.len(),
{
    if s.len() > 0 {
        assert(all_digits(s.drop_last())) by {
            assert(forall|k: int| 0 <= k < s.len() - 1 ==> s.drop_last()[k] == s[k]);
        }
        lemma_digits_value_nonneg(s.drop_last());
        assert(is_ascii_digit(s.last()));
        assert(digits_value(s.drop_last()) * 10 >= 0) by (nonlinear_arith)
            requires
                digits_value(s.drop_last()) >= 0,
        ;
    }
}

/// Position of the first newline byte at or after `lo`, or `hi` if none.
fn find_newline(s: &[u8], lo: usize, hi: usize) -> (j: usize)
    requires
        lo <= hi <= s@.len(),
    ensures
        lo <= j <= hi,
        forall|k: int| lo <= k < j ==> s@[k] != 10,
        j < hi ==> s@[j as int] == 10,
{
    let mut j = lo;
    while j < hi
        invariant
            lo <= j <= hi <= s@.len(),
            forall|k: int| lo <= k < j ==> s@[k] != 10,
        decreases hi - j,
    {
        if s[j] == 10 {
            return j;
        }
        j = j + 1;
    }
    j
}

/// Position of the first byte at or after `lo` that is not whitespace, or
/// `hi` if all are.
fn scan_nonspace_front(s: &[u8], lo: usize, hi: usize) -> (a: usize)
    requires
        lo <= hi <= s@.len(),
    ensures
        lo <= a <= hi,
        forall|k: int| lo <= k < a ==> is_ascii_space(#[trigger] s@[k]),
        a < hi ==> !is_ascii_space(s@[a as int]),
{
    let mut a = lo;
    while a < hi
        invariant
            lo <= a <= hi <= s@.len(),
            forall|k: int| lo <= k < a ==> is_ascii_space(#[trigger] s@[k]),
        decreases hi - a,
    {
        let b = s[a];
        if !(b == 32 || (9 <= b && b <= 13)) {
            return a;
        }
        a = a + 1;
    }
    a
}

/// Position after the last byte before `hi`, at or after `a`, that is not
/// whitespace, or `a` if all are.
fn scan_nonspace_back(s: &[u8], a: usize, hi: usize) -> (b: usize)
    requires
        a <= hi <= s@.len(),
    ensures
        a <= b <= hi,
        forall|k: int| b <= k < hi ==> is_ascii_space(#[trigger] s@[k]),
        b > a ==> !is_ascii_space(s@[b - 1]),
{
    let mut b = hi;
    while b > a
        invariant
            a <= b <= hi <= s@.len(),
            forall|k: int| b <= k < hi ==> is_ascii_space(#[trigger] s@[k]),
        decreases b,
    {
        let c = s[b - 1];
        if !(c == 32 || (9 <= c && c <= 13)) {
            return b;
        }
        b = b - 1;
    }
    b
}

/// The bounds of the trimmed content of `s` between `lo` and `hi`.
fn trim_bounds(s: &[u8], lo: usize, hi: usize) -> (r: (usize, usize))
    requires
        lo <= hi <= s@.len(),
    ensures
        lo <= r.0 <= r.1 <= hi,
        trim_spaces(s@.subrange(lo as int, hi as int)) == s@.subrange(r.0 as int, r.1 as int),
{
    let a = scan_nonspace_front(s, lo, hi);
    let b = scan_nonspace_back(s, a, hi);
    proof {
        let whole = s@.subrange(lo as int, hi as int);
        assert(forall|k: int| 0 <= k < whole.len() ==> whole[k] == s@[lo + k]);
        lemma_trim_front_at(whole, a - lo);
        let fronted = whole.subrange(a - lo, whole.len() as int);
        assert(fronted =~= s@.subrange(a as int, hi as int));
        assert(forall|k: int| 0 <= k < fronted.len() ==> fronted[k] == s@[a + k]);
        lemma_trim_back_at(fronted, b - a);
        assert(fronted.subrange(0, b - a) =~= s@.subrange(a as int, b as int));
    }
    (a, b)
}

/// Parse the decimal digits of `s` between `lo` and `hi` as a `u32`.
fn parse_u32_range(s: &[u8], lo: usize, hi: usize) -> (r: Option<u32>)
    requires
        lo <= hi <= s@.len(),
    ensures
        r == parse_u32_spec(s@.subrange(lo as int, hi as int)),
{
    let ghost digits = s@.subrange(lo as int, hi as int);
    if lo == hi {
        return None;
    }
    let mut acc: u64 = 0;
    let mut k = lo;
    while k < hi
        invariant
            lo <= k <= hi <= s@.len(),
            digits == s@.subrange(lo as int, hi as int),
            forall|j: int| lo <= j < k ==> is_ascii_digit(#[trigger] s@[j]),
            acc == digits_value(digits.subrange(0, k - lo)),
            acc <= u32::MAX,
        decreases hi - k,
    {
        let b = s[k];
        if !(48 <= b && b <= 57) {
            proof {
                assert(!is_ascii_digit(digits[k - lo]));
            }
            return None;
        }
        let next = acc * 10 + ((b - 48) as u64);
        proof {
            let p = digits.subrange(0, k - lo + 1);
            assert(p.drop_last() =~= digits.subrange(0, k - lo));
            assert(p.last() == s@[k as int]);
            assert(next == digits_value(p));
        }
        if next > 0xFFFF_FFFF {
            // the value read so far already exceeds the type; whatever
            // follows, the whole string cannot parse
            proof {
                if all_digits(digits) {
                    lemma_digits_value_mono(digits, k - lo + 1);
                }
            }
            return None;
        }
        acc = next;
        k = k + 1;
    }
    proof {
        assert(digits.subrange(0, hi - lo) =~= digits);
        assert(all_digits(digits)) by {
            assert(forall|j: int| 0 <= j < digits.len() ==> digits[j] == s@[lo + j]);
        }
    }
    Some(acc as u32)
}

/// Parse a dbus reply: refuse output that is not valid UTF-8, then scan
/// for the first `uint32` line and read its number.
pub fn parse_dbus_uint32(stdout: &[u8]) -> (r: Option<u32>)
    ensures
        r == parse_dbus_spec(stdout@),
{
    if !utf8_valid(stdout) {
        return None;
    }
    let n = stdout.len();
    let mut i: usize = 0;
    proof {
        assert(stdout@.subrange(0, n as int) =~= stdout@);
    }
    loop
        invariant
            i <= n,
            n == stdout@.len(),
            vstd::utf8::valid_utf8(stdout@),
            uint32_scan_spec(stdout@) == uint32_scan_spec(stdout@.subrange(i as int, n as int)),
        decreases n - i,
    {
        let ghost rem = stdout@.subrange(i as int, n as int);
        let j = find_newline(stdout, i, n);
        proof {
            assert(forall|k: int| 0 <= k < rem.len() ==> rem[k] == stdout@[i + k]);
            if j < n {
                lemma_first_newline_at(rem, j - i);
                assert(rem.subrange(0, j - i) =~= stdout@.subrange(i as int, j as int));
                assert(rem.subrange(j - i + 1, rem.len() as int) =~= stdout@.subrange(
                    j + 1,
                    n as int,
                ));
            } else {
                lemma_first_newline_none(rem);
                assert(rem =~= stdout@.subrange(i as int, j as int));
            }
        }
        let (a, b) = trim_bounds(stdout, i, j);
        let has_prefix = b - a >= 6 && stdout[a] == 117 && stdout[a + 1] == 105 && stdout[a + 2]
            == 110 && stdout[a + 3] == 116 && stdout[a + 4] == 51 && stdout[a + 5] == 50;
        proof {
            let t = trim_spaces(stdout@.subrange(i as int, j as int));
            assert(t == stdout@.subrange(a as int, b as int));
            assert(forall|k: int| 0 <= k < t.len() ==> t[k] == stdout@[a + k]);
            assert(has_prefix == uint32_prefix(t));
        }
        if has_prefix {
            let (c, d) = trim_bounds(stdout, a + 6, b);
            let r = parse_u32_range(stdout, c, d);
            proof {
                let t = trim_spaces(stdout@.subrange(i as int, j as int));
                assert(t.subrange(6, t.len() as int) =~= stdout@.subrange(a + 6, b as int));
                assert(r == uint32_line_value(stdout@.subrange(i as int, j as int)));
            }
            return r;
        }
        if j == n {
            return None;
        }
        i = j + 1;
    }
}

} // verus!
