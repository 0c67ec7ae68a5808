//! Verified string helpers: numeric-literal parsing, character search,
//! substring containment and case-insensitive comparison.
//!
//! Register identifiers are plain ASCII in practice, but nothing here assumes
//! it: every function works character-wise on the string's view.

use vstd::prelude::*;
use vstd::string::StrSliceExecFns;
use crate::errors::TfError;

verus! {

/// An ASCII upper-case letter mapped to lower case; everything else kept.
pub open spec fn lower_char(c: char) -> char {
    if 65 <= c as u32 && c as u32 <= 90 {
        (((c as u32) + 32) as u8) as char
    } else {
        c
    }
}

/// Character-wise case-insensitive equality (ASCII case only).
pub open spec fn eq_ignore_case(a: Seq<char>, b: Seq<char>) -> bool {
    a.len() == b.len() && forall|i: int| 0 <= i < a.len() ==> lower_char(a[i]) == lower_char(b[i])
}

/// Whether `c` is a digit of the given radix (10 or 16; both letter cases).
pub open spec fn is_digit(c: char, radix: int) -> bool {
    let v = c as u32;
    (48 <= v && v <= 57) || (radix == 16 && (97 <= v && v <= 102 || 65 <= v && v <= 70))
}

/// The numeric value of a digit; 0 for characters that are no digit.
pub open spec fn digit_val(c: char, radix: int) -> int {
    let v = c as u32;
    if 48 <= v && v <= 57 {
        v - 48
    } else if radix == 16 && 97 <= v && v <= 102 {
        v - 87
    } else if radix == 16 && 65 <= v && v <= 70 {
        v - 55
    } else {
        0
    }
}

/// The value of a digit string read most-significant first.
pub open spec fn digits_val(s: Seq<char>, radix: int) -> int
    decreases s.len(),
{
    if s.len() == 0 {
        0
    } else {
        digits_val(s.drop_last(), radix) * radix + digit_val(s.last(), radix)
    }
}

/// Every character is a digit of the radix.
pub open spec fn all_digits(s: Seq<char>, radix: int) -> bool {
    forall|i: int| 0 <= i < s.len() ==> is_digit(s[i], radix)
}

/// A non-empty all-digit string whose value fits in 32 bits.
pub open spec fn parse_ok(s: Seq<char>, radix: int) -> bool {
    s.len() > 0 && all_digits(s, radix) && digits_val(s, radix) <= u32::MAX
}

/// The unsigned 32-bit value a numeric literal denotes: a `0x`-prefixed
/// hexadecimal string, or a bare decimal string.
pub open spec fn spec_parse_val(s: Seq<char>) -> Option<u32> {
    if s.len() >= 2 && s[0] == '0' && s[1] == 'x' {
        let t = s.skip(2);
        if parse_ok(t, 16) {
            Some(digits_val(t, 16) as u32)
        } else {
            None
        }
    } else {
        if parse_ok(s, 10) {
            Some(digits_val(s, 10) as u32)
        } else {
            None
        }
    }
}

/// A digit string's value is never negative.
pub proof fn lemma_digits_val_nonneg(s: Seq<char>, radix: int)
    requires
        radix >= 1,
    ensures
        digits_val(s, radix) >= 0,
    decreases s.len(),
{
    if s.len() > 0 {
        lemma_digits_val_nonneg(s.drop_last(), radix);
        assert(digits_val(s.drop_last(), radix) * radix >= 0) by (nonlinear_arith)
            requires
                digits_val(s.drop_last(), radix) >= 0,
                radix >= 1,
        ;
    }
}

/// Extending a digit string never lowers its value.
pub proof fn lemma_digits_val_prefix(s: Seq<char>, i: int, radix: int)
    requires
        radix >= 1,
        0 <= i <= s.len(),
    ensures
        digits_val(s.subrange(0, i), radix) <= digits_val(s, radix),
    decreases s.len() - i,
{
    if i == s.len() {
        assert(s.subrange(0, i) =~= s);
    } else {
        lemma_digits_val_prefix(s.drop_last(), i, radix);
        assert(s.drop_last().subrange(0, i) =~= s.subrange(0, i));
        let d = digits_val(s.drop_last(), radix);
        lemma_digits_val_nonneg(s.drop_last(), radix);
        assert(d * radix >= d) by (nonlinear_arith)
            requires
                d >= 0,
                radix >= 1,
        ;
    }
}

/// Parse the digits of `v` from character position `from` on, in the given
/// radix, as an unsigned 32-bit value.
fn parse_digits(v: &str, from: usize, radix: u32) -> (r: Option<u32>)
    requires
        radix == 10 || radix == 16,
        from <= v@.len(),
    ensures
        parse_ok(v@.skip(from as int), radix as int) ==> r == Some(
            digits_val(v@.skip(from as int), radix as int) as u32,
        ),
        !parse_ok(v@.skip(from as int), radix as int) ==> r is None,
{
    let ghost t = v@.skip(from as int);
    let n = v.unicode_len();
    if from >= n {
        return None;
    }
    let mut val: u64 = 0;
    let mut i: usize = from;
    while i < n
        invariant
            radix == 10 || radix == 16,
            from <= i <= n,
            n == v@.len(),
            t == v@.skip(from as int),
            all_digits(v@.subrange(from as int, i as int), radix as int),
            val == digits_val(v@.subrange(from as int, i as int), radix as int),
            val <= u32::MAX,
        decreases n - i,
    {
        let c = v.get_char(i);
        let code = c as u32;
        let d: u32 = if 48 <= code && code <= 57 {
            code - 48
        } else if radix == 16 && 97 <= code && code <= 102 {
            code - 87
        } else if radix == 16 && 65 <= code && code <= 70 {
            code - 55
        } else {
            proof {
                assert(t[i - from] == v@[i as int]);
                assert(!is_digit(t[i - from], radix as int));
            }
            return None;
        };
        proof {
            assert(val * (radix as u64) <= 0xFFFF_FFFF * 16) by (nonlinear_arith)
                requires
                    val <= 0xFFFF_FFFF,
                    radix <= 16,
            ;
        }
        let new_val: u64 = val * (radix as u64) + (d as u64);
        proof {
            let pre = v@.subrange(from as int, i as int);
            let cur = v@.subrange(from as int, i as int + 1);
            assert(cur.drop_last() =~= pre);
            assert(cur.last() == v@[i as int]);
        }
        if new_val > 0xFFFF_FFFF {
            proof {
                lemma_digits_val_prefix(t, i + 1 - from, radix as int);
                assert(t.subrange(0, i + 1 - from) =~= v@.subrange(from as int, i as int + 1));
            }
            return None;
        }
        val = new_val;
        i = i + 1;
    }
    proof {
        assert(v@.subrange(from as int, n as int) =~= t);
    }
    Some(val as u32)
}

/// Parse a numeric register literal: `0x`-prefixed hexadecimal, or bare
/// decimal; both must fit in an unsigned 32-bit word.
pub fn parse_val(v: &str) -> (r: Result<u32, TfError>)
    ensures
        spec_parse_val(v@) matches Some(x) ==> r == Ok::<u32, TfError>(x),
        spec_parse_val(v@) is None ==> (r matches Err(e) && e matches TfError::BadIdentifier(m)
            && m@ == v@),
    {
    let n = v.unicode_len();
    let parsed: Option<u32> = if n >= 2 && v.get_char(0) == '0' && v.get_char(1) == 'x' {
        parse_digits(v, 2, 16)
    } else {
        proof {
            assert(v@.skip(0) =~= v@);
        }
        parse_digits(v, 0, 10)
    };
    match parsed {
        Some(x) => Ok(x),
        None => Err(TfError::BadIdentifier(v.to_owned())),
    }
}

/// Parse a bare hexadecimal string (no prefix) as an unsigned 32-bit value.
pub fn parse_hex32(v: &str) -> (r: Option<u32>)
    ensures
        parse_ok(v@, 16) ==> r == Some(digits_val(v@, 16) as u32),
        !parse_ok(v@, 16) ==> r is None,
{
    proof {
        assert(v@.skip(0) =~= v@);
    }
    parse_digits(v, 0, 16)
}

/// Parse a bare decimal string as an unsigned 32-bit value.
pub fn parse_dec32(v: &str) -> (r: Option<u32>)
    ensures
        parse_ok(v@, 10) ==> r == Some(digits_val(v@, 10) as u32),
        !parse_ok(v@, 10) ==> r is None,
{
    proof {
        assert(v@.skip(0) =~= v@);
    }
    parse_digits(v, 0, 10)
}

/// Whether the views of two string slices are the same character sequence.
pub fn str_eq_str(a: &str, b: &str) -> (r: bool)
    ensures
        r == (a@ == b@),
{
    let n = a.unicode_len();
    let m = b.unicode_len();
    if n != m {
        return false;
    }
    let mut i: usize = 0;
    while i < n
        invariant
            n == a@.len(),
            n == b@.len(),
            0 <= i <= n,
            forall|j: int| 0 <= j < i ==> a@[j] == b@[j],
        decreases n - i,
    {
        if a.get_char(i) != b.get_char(i) {
            return false;
        }
        i = i + 1;
    }
    proof {
        assert(a@ =~= b@);
    }
    true
}

/// Character-wise ASCII-case-insensitive equality of two string slices.
pub fn str_eq_ignore_case(a: &str, b: &str) -> (r: bool)
    ensures
        r == eq_ignore_case(a@, b@),
{
    let n = a.unicode_len();
    let m = b.unicode_len();
    if n != m {
        return false;
    }
    let mut i: usize = 0;
    while i < n
        invariant
            n == a@.len(),
            n == b@.len(),
            0 <= i <= n,
            forall|j: int| 0 <= j < i ==> lower_char(a@[j]) == lower_char(b@[j]),
        decreases n - i,
    {
        let ca = a.get_char(i);
        let cb = b.get_char(i);
        let la: char = if 65 <= ca as u32 && ca as u32 <= 90 {
            (((ca as u32) + 32) as u8) as char
        } else {
            ca
        };
        let lb: char = if 65 <= cb as u32 && cb as u32 <= 90 {
            (((cb as u32) + 32) as u8) as char
        } else {
            cb
        };
        if la != lb {
            return false;
        }
        i = i + 1;
    }
    true
}

/// The first position at or after `from` where `c` occurs in `p`, or
/// `p.len()` if it does not occur there.
pub open spec fn find_ch(p: Seq<char>, c: char, from: int) -> int
    decreases p.len() - from,
{
    if from < 0 || from >= p.len() {
        p.len() as int
    } else if p[from] == c {
        from
    } else {
        find_ch(p, c, from + 1)
    }
}

/// Where `find_ch` points: no earlier occurrence, and a hit unless past the
/// end.
pub proof fn lemma_find_ch(p: Seq<char>, c: char, from: int)
    requires
        0 <= from <= p.len(),
    ensures
        from <= find_ch(p, c, from) <= p.len(),
        find_ch(p, c, from) < p.len() ==> p[find_ch(p, c, from)] == c,
        forall|j: int| from <= j < find_ch(p, c, from) ==> p[j] != c,
    decreases p.len() - from,
{
    if from < p.len() && p[from] != c {
        lemma_find_ch(p, c, from + 1);
    }
}

/// Find the first occurrence of `c` in `s` at or after position `from`.
pub fn find_char(s: &str, c: char, from: usize) -> (r: usize)
    requires
        from <= s@.len(),
    ensures
        r == find_ch(s@, c, from as int),
{
    let n = s.unicode_len();
    let mut i: usize = from;
    while i < n
        invariant
            from <= i <= n,
            n == s@.len(),
            find_ch(s@, c, from as int) == find_ch(s@, c, i as int),
        decreases n - i,
    {
        if s.get_char(i) == c {
            return i;
        }
        i = i + 1;
    }
    n
}

/// Strict lexicographic order on character sequences, by code point, with a
/// proper prefix ordered before its extensions.
pub open spec fn lex_lt(a: Seq<char>, b: Seq<char>) -> bool
    decreases a.len(),
{
    if b.len() == 0 {
        false
    } else if a.len() == 0 {
        true
    } else if a[0] != b[0] {
        (a[0] as u32) < (b[0] as u32)
    } else {
        lex_lt(a.skip(1), b.skip(1))
    }
}

/// Whether `a` orders strictly before `b` lexicographically.
pub fn str_lt(a: &str, b: &str) -> (r: bool)
    ensures
        r == lex_lt(a@, b@),
{
    let n = a.unicode_len();
    let m = b.unicode_len();
    let mut i: usize = 0;
    proof {
        assert(a@.skip(0) =~= a@);
        assert(b@.skip(0) =~= b@);
    }
    while i < n && i < m
        invariant
            n == a@.len(),
            m == b@.len(),
            i <= n,
            i <= m,
            lex_lt(a@, b@) == lex_lt(a@.skip(i as int), b@.skip(i as int)),
            forall|j: int| 0 <= j < i ==> a@[j] == b@[j],
        decreases n - i,
    {
        let ca = a.get_char(i);
        let cb = b.get_char(i);
        proof {
            assert(a@.skip(i as int)[0] == a@[i as int]);
            assert(b@.skip(i as int)[0] == b@[i as int]);
            assert(a@.skip(i as int).skip(1) =~= a@.skip(i as int + 1));
            assert(b@.skip(i as int).skip(1) =~= b@.skip(i as int + 1));
        }
        if ca != cb {
            return (ca as u32) < (cb as u32);
        }
        i = i + 1;
    }
    proof {
        assert(a@.skip(i as int).len() == n - i);
        assert(b@.skip(i as int).len() == m - i);
    }
    i < m
}

/// `needle` occurs contiguously somewhere in `hay`.
pub open spec fn spec_contains(hay: Seq<char>, needle: Seq<char>) -> bool {
    exists|i: int|
        0 <= i <= hay.len() - needle.len() && #[trigger] hay.subrange(i, i + needle.len())
            == needle
}

/// Substring search: whether `needle` occurs contiguously in `hay`.
pub fn str_contains(hay: &str, needle: &str) -> (r: bool)
    ensures
        r == spec_contains(hay@, needle@),
{
    let n = hay.unicode_len();
    let m = needle.unicode_len();
    if m > n {
        return false;
    }
    if m == 0 {
        proof {
            assert(hay@.subrange(0, 0 + needle@.len() as int) =~= needle@);
        }
        return true;
    }
    let mut i: usize = 0;
    while i <= n - m
        invariant
            1 <= m <= n,
            n == hay@.len(),
            m == needle@.len(),
            0 <= i <= n - m + 1,
            forall|k: int|
                0 <= k < i ==> #[trigger] hay@.subrange(k, k + needle@.len()) != needle@,
        decreases n + 1 - m - i,
    {
        let mut j: usize = 0;
        let mut hit = true;
        while j < m
            invariant
                1 <= m <= n,
                n == hay@.len(),
                m == needle@.len(),
                0 <= i <= n - m,
                0 <= j <= m,
                hit ==> forall|l: int| 0 <= l < j ==> hay@[i + l] == needle@[l],
                !hit ==> hay@.subrange(i as int, i + needle@.len()) != needle@,
            decreases m - j,
        {
            if hay.get_char(i + j) != needle.get_char(j) {
                proof {
                    assert(hay@.subrange(i as int, i + needle@.len())[j as int] == hay@[i + j]);
                }
                hit = false;
                j = m;
            } else {
                j = j + 1;
            }
        }
        if hit {
            proof {
                assert(hay@.subrange(i as int, i + needle@.len()) =~= needle@);
            }
            return true;
        }
        i = i + 1;
    }
    false
}

/// Whether the name marks an implementation-private child (leading `_`).
pub fn starts_with_underscore(s: &str) -> (r: bool)
    ensures
        r == (s@.len() > 0 && s@[0] == '_'),
{
    if s.is_empty() {
        false
    } else {
        s.get_char(0) == '_'
    }
}

} // verus!
