//! Verified text utilities: substring search over characters, decimal
//! formatting and parsing of `u32` values, and a single trusted bridge to
//! std's `String::push`.

use vstd::prelude::*;
use vstd::string::StrSliceExecFns;

verus! {

/// True when `needle` occurs in `hay` starting at index `i`.
pub open spec fn matches_at(hay: Seq<char>, needle: Seq<char>, i: int) -> bool {
    &&& 0 <= i
    &&& i + needle.len() <= hay.len()
    &&& hay.subrange(i, i + needle.len()) == needle
}

/// True when `needle` occurs somewhere in `hay`.
pub open spec fn contains_seq(hay: Seq<char>, needle: Seq<char>) -> bool {
    exists|i: int| matches_at(hay, needle, i)
}

/// Relies on std's `String::push`, which appends the given character to the
/// end of the string.
#[verifier::external_body]
pub(crate) fn push_char(s: &mut String, c: char)
    ensures
        final(s)@ == old(s)@ + seq![c],
{
    s.push(c);
}

/// Substring search over characters: decides whether `needle` occurs in
/// `hay`.
pub fn contains_str(hay: &str, needle: &str) -> (found: bool)
    ensures
        found == contains_seq(hay@, needle@),
{
    let hay_len: usize = hay.unicode_len();
    let needle_len: usize = needle.unicode_len();
    if needle_len > hay_len {
        assert(forall|j: int| !matches_at(hay@, needle@, j));
        return false;
    }
    if needle_len == 0 {
        assert(hay@.subrange(0, 0) =~= needle@);
        assert(matches_at(hay@, needle@, 0));
        return true;
    }
    let mut i: usize = 0;
    while i <= hay_len - needle_len
        invariant
            hay_len == hay@.len(),
            needle_len == needle@.len(),
            1 <= needle_len <= hay_len,
            i <= hay_len - needle_len + 1,
            forall|j: int| 0 <= j < i ==> !matches_at(hay@, needle@, j),
        decreases hay_len - needle_len + 1 - i,
    {
        let mut k: usize = 0;
        let mut is_match = true;
        while is_match && k < needle_len
            invariant
                hay_len == hay@.len(),
                needle_len == needle@.len(),
                i + needle_len <= hay_len,
                k <= needle_len,
                is_match ==> forall|m: int| 0 <= m < k ==> hay@[i + m] == needle@[m],
                !is_match ==> !matches_at(hay@, needle@, i as int),
            decreases needle_len - k + (if is_match { 1int } else { 0int }),
        {
            if hay.get_char(i + k) != needle.get_char(k) {
                assert(!matches_at(hay@, needle@, i as int)) by {
                    if matches_at(hay@, needle@, i as int) {
                        assert(hay@.subrange(i as int, i + needle@.len())[k as int]
                            == needle@[k as int]);
                    }
                }
                is_match = false;
            } else {
                k += 1;
            }
        }
        if is_match {
            assert(hay@.subrange(i as int, i + needle@.len()) =~= needle@);
            assert(matches_at(hay@, needle@, i as int));
            return true;
        }
        i += 1;
    }
    assert(forall|j: int| !matches_at(hay@, needle@, j)) by {
        assert(forall|j: int| #[trigger] matches_at(hay@, needle@, j)
            ==> 0 <= j < i);
    }
    false
}

/// The character for a single decimal digit.
pub open spec fn decimal_digit(d: nat) -> char {
    if d == 0 {
        '0'
    } else if d == 1 {
        '1'
    } else if d == 2 {
        '2'
    } else if d == 3 {
        '3'
    } else if d == 4 {
        '4'
    } else if d == 5 {
        '5'
    } else if d == 6 {
        '6'
    } else if d == 7 {
        '7'
    } else if d == 8 {
        '8'
    } else {
        '9'
    }
}

/// The decimal numeral for `n`, most significant digit first.
pub open spec fn spec_decimal(n: nat) -> Seq<char>
    decreases n,
{
    if n < 10 {
        seq![decimal_digit(n)]
    } else {
        spec_decimal(n / 10).push(decimal_digit(n % 10))
    }
}

fn digit_char(d: u32) -> (c: char)
    requires
        d < 10,
    ensures
        c == decimal_digit(d as nat),
{
    if d == 0 {
        '0'
    } else if d == 1 {
        '1'
    } else if d == 2 {
        '2'
    } else if d == 3 {
        '3'
    } else if d == 4 {
        '4'
    } else if d == 5 {
        '5'
    } else if d == 6 {
        '6'
    } else if d == 7 {
        '7'
    } else if d == 8 {
        '8'
    } else {
        '9'
    }
}

/// Formats `n` as its decimal numeral.
pub fn u32_to_string(n: u32) -> (s: String)
    ensures
        s@ == spec_decimal(n as nat),
    decreases n,
{
    if n < 10 {
        let mut s = String::new();
        push_char(&mut s, digit_char(n));
        assert(s@ =~= spec_decimal(n as nat));
        s
    } else {
        let mut s = u32_to_string(n / 10);
        push_char(&mut s, digit_char(n % 10));
        assert(s@ =~= spec_decimal(n as nat));
        s
    }
}

/// The numeric value of a decimal digit character, or -1 when the character
/// is not a digit.
pub open spec fn digit_of(c: char) -> int {
    if c == '0' {
        0
    } else if c == '1' {
        1
    } else if c == '2' {
        2
    } else if c == '3' {
        3
    } else if c == '4' {
        4
    } else if c == '5' {
        5
    } else if c == '6' {
        6
    } else if c == '7' {
        7
    } else if c == '8' {
        8
    } else if c == '9' {
        9
    } else {
        -1
    }
}

pub open spec fn is_digit(c: char) -> bool {
    digit_of(c) >= 0
}

pub open spec fn all_digits(s: Seq<char>) -> bool {
    forall|i: int| 0 <= i < s.len() ==> is_digit(#[trigger] s[i])
}

/// The value of a digit string, most significant digit first.
pub open spec fn numeral_value(s: Seq<char>) -> int
    decreases s.len(),
{
    if s.len() == 0 {
        0
    } else {
        numeral_value(s.drop_last()) * 10 + digit_of(s.last())
    }
}

/// The digits of `s` once an optional leading plus sign is removed.
pub open spec fn numeral_body(s: Seq<char>) -> Seq<char> {
    if s.len() > 0 && s[0] == '+' {
        s.drop_first()
    } else {
        s
    }
}

/// What parsing `s` as a `u32` yields: the decimal value of the digits after
/// an optional plus sign, when there is at least one digit and the value
/// fits.
pub open spec fn spec_parse_u32(s: Seq<char>) -> Option<u32> {
    let body = numeral_body(s);
    if body.len() > 0 && all_digits(body) && numeral_value(body) <= u32::MAX {
        Some(numeral_value(body) as u32)
    } else {
        None
    }
}

proof fn lemma_numeral_nonneg(s: Seq<char>)
    requires
        all_digits(s),
    ensures
        numeral_value(s) >= 0,
    decreases s.len(),
{
    if s.len() > 0 {
        assert(all_digits(s.drop_last()));
        lemma_numeral_nonneg(s.drop_last());
        assert(is_digit(s.last()));
    }
}

/// A digit string's value is at least the value of any of its prefixes.
proof fn lemma_numeral_prefix_bound(s: Seq<char>, i: int)
    requires
        all_digits(s),
        0 <= i <= s.len(),
    ensures
        numeral_value(s.subrange(0, i)) <= numeral_value(s),
    decreases s.len() - i,
{
    if i == s.len() {
        assert(s.subrange(0, i) =~= s);
    } else {
        lemma_numeral_prefix_bound(s, i + 1);
        let p = s.subrange(0, i + 1);
        assert(all_digits(p));
        assert(p.drop_last() =~= s.subrange(0, i));
        lemma_numeral_nonneg(p.drop_last());
        assert(is_digit(p.last()));
        assert(numeral_value(p) == numeral_value(p.drop_last()) * 10 + digit_of(p.last()));
        assert(numeral_value(p.drop_last()) * 10 >= numeral_value(p.drop_last()));
    }
}

fn char_digit(c: char) -> (d: Option<u32>)
    ensures
        d == if is_digit(c) {
            Some(digit_of(c) as u32)
        } else {
            None::<u32>
        },
{
    if c == '0' {
        Some(0)
    } else if c == '1' {
        Some(1)
    } else if c == '2' {
        Some(2)
    } else if c == '3' {
        Some(3)
    } else if c == '4' {
        Some(4)
    } else if c == '5' {
        Some(5)
    } else if c == '6' {
        Some(6)
    } else if c == '7' {
        Some(7)
    } else if c == '8' {
        Some(8)
    } else if c == '9' {
        Some(9)
    } else {
        None
    }
}

/// Parses a decimal `u32` the way std's `str::parse::<u32>` accepts one: an
/// optional leading plus sign, then one or more decimal digits, rejecting
/// any other character and any value that does not fit.
pub fn parse_u32(s: &str) -> (r: Option<u32>)
    ensures
        r == spec_parse_u32(s@),
{
    let len: usize = s.unicode_len();
    let start: usize = if len > 0 && s.get_char(0) == '+' {
        1
    } else {
        0
    };
    assert(numeral_body(s@) =~= s@.subrange(start as int, len as int));
    if len == start {
        return None;
    }
    let mut i: usize = start;
    let mut val: u32 = 0;
    while i < len
        invariant
            start <= i <= len,
            len == s@.len(),
            numeral_body(s@) == s@.subrange(start as int, len as int),
            all_digits(s@.subrange(start as int, i as int)),
            val == numeral_value(s@.subrange(start as int, i as int)),
        decreases len - i,
    {
        let c = s.get_char(i);
        let d = match char_digit(c) {
            Some(d) => d,
            None => {
                assert(!all_digits(numeral_body(s@))) by {
                    assert(s@.subrange(start as int, len as int)[i - start] == c);
                }
                return None;
            },
        };
        let ghost pre = s@.subrange(start as int, i as int);
        let ghost ext = s@.subrange(start as int, i + 1);
        assert(ext.drop_last() =~= pre);
        assert(ext.last() == c);
        assert(numeral_value(ext) == val * 10 + d);
        if val > (u32::MAX - d) / 10 {
            proof {
                lemma_overflow_step(val, d);
                if all_digits(numeral_body(s@)) {
                    assert(all_digits(ext)) by {
                        assert(forall|m: int| 0 <= m < ext.len()
                            ==> ext[m] == numeral_body(s@)[m]);
                    }
                    lemma_numeral_prefix_bound(numeral_body(s@), i + 1 - start);
                    assert(numeral_body(s@).subrange(0, i + 1 - start) =~= ext);
                }
            }
            return None;
        }
        proof {
            lemma_no_overflow_step(val, d);
        }
        val = val * 10 + d;
        assert(all_digits(ext)) by {
            assert(forall|m: int| 0 <= m < i - start ==> ext[m] == pre[m]);
        }
        i += 1;
        assert(s@.subrange(start as int, i as int) =~= ext);
    }
    assert(s@.subrange(start as int, len as int) =~= numeral_body(s@));
    Some(val)
}

/// When the guard `val > (u32::MAX - d) / 10` holds, one more digit pushes
/// the value past `u32::MAX`.
proof fn lemma_overflow_step(val: u32, d: u32)
    requires
        d < 10,
        val > (u32::MAX - d) / 10,
    ensures
        val * 10 + d > u32::MAX,
{
    let m = (u32::MAX - d) as int;
    assert(m == (m / 10) * 10 + m % 10) by (nonlinear_arith);
    assert(val * 10 >= (m / 10 + 1) * 10) by (nonlinear_arith)
        requires
            val >= m / 10 + 1,
    ;
    assert((m / 10 + 1) * 10 == (m / 10) * 10 + 10) by (nonlinear_arith);
}

/// When the guard fails, one more digit still fits in a `u32`.
proof fn lemma_no_overflow_step(val: u32, d: u32)
    requires
        d < 10,
        val <= (u32::MAX - d) / 10,
    ensures
        val * 10 + d <= u32::MAX,
{
    let m = (u32::MAX - d) as int;
    assert(m == (m / 10) * 10 + m % 10) by (nonlinear_arith);
    assert(val * 10 <= (m / 10) * 10) by (nonlinear_arith)
        requires
            val <= m / 10,
    ;
}

} // verus!
