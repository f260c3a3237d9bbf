//! Small verified text utilities: whitespace trimming, substring search,
//! and decimal rendering/parsing of small integers.

use vstd::prelude::*;

verus! {

/// The whitespace characters recognised when trimming console input.
pub open spec fn is_space(c: char) -> bool {
    c == ' ' || c == '\t' || c == '\n' || c == '\r'
}

/// The input with leading whitespace removed.
pub open spec fn spec_trim_start(s: Seq<char>) -> Seq<char>
    decreases s.len(),
{
    if s.len() > 0 && is_space(s[0]) {
        spec_trim_start(s.drop_first())
    } else {
        s
    }
}

/// The input with trailing whitespace removed.
pub open spec fn spec_trim_end(s: Seq<char>) -> Seq<char>
    decreases s.len(),
{
    if s.len() > 0 && is_space(s[s.len() - 1]) {
        spec_trim_end(s.drop_last())
    } else {
        s
    }
}

/// The input with leading and trailing whitespace removed.
pub open spec fn spec_trim(s: Seq<char>) -> Seq<char> {
    spec_trim_end(spec_trim_start(s))
}

fn trim_start(s: &str) -> (r: &str)
    ensures
        r@ == spec_trim_start(s@),
    decreases s@.len(),
{
    let n = s.unicode_len();
    if n > 0 {
        let c = s.get_char(0);
        if c == ' ' || c == '\t' || c == '\n' || c == '\r' {
            let rest = s.substring_char(1, n);
            proof {
                assert(rest@ =~= s@.drop_first());
            }
            return trim_start(rest);
        }
    }
    s
}

fn trim_end(s: &str) -> (r: &str)
    ensures
        r@ == spec_trim_end(s@),
    decreases s@.len(),
{
    let n = s.unicode_len();
    if n > 0 {
        let c = s.get_char(n - 1);
        if c == ' ' || c == '\t' || c == '\n' || c == '\r' {
            let rest = s.substring_char(0, n - 1);
            proof {
                assert(rest@ =~= s@.drop_last());
            }
            return trim_end(rest);
        }
    }
    s
}

/// Remove leading and trailing whitespace, as done on every console line read.
pub fn trim(s: &str) -> (r: String)
    ensures
        r@ == spec_trim(s@),
{
    let t = trim_start(s);
    let u = trim_end(t);
    u.to_owned()
}

/// `c` is an ASCII decimal digit.
pub open spec fn is_digit(c: char) -> bool {
    48 <= c as u32 <= 57
}

/// The numeric value of a digit character.
pub open spec fn digit_val(c: char) -> nat {
    (c as u32 - 48) as nat
}

/// Every character of `s` is a decimal digit.
pub open spec fn all_digits(s: Seq<char>) -> bool {
    forall|i: int| 0 <= i < s.len() ==> is_digit(#[trigger] s[i])
}

/// The number denoted by a sequence of decimal digits (most significant first).
pub open spec fn dec_val(s: Seq<char>) -> nat
    decreases s.len(),
{
    if s.len() == 0 {
        0
    } else {
        dec_val(s.drop_last()) * 10 + digit_val(s.last())
    }
}

/// The digit character for a value below ten.
pub open spec fn digit_char(d: nat) -> char {
    if d == 0 {
        '0'
    } else if d == 1 {
        '1'
    } else if d == 2 {
        '2'
    } else if d == 3 {
        '3'
    } else if d == 4 {
        '4'
    } else if d == 5 {
        '5'
    } else if d == 6 {
        '6'
    } else if d == 7 {
        '7'
    } else if d == 8 {
        '8'
    } else {
        '9'
    }
}

/// The canonical decimal rendering of a number, without leading zeros.
pub open spec fn dec_rep(v: nat) -> Seq<char>
    decreases v,
{
    if v < 10 {
        seq![digit_char(v)]
    } else {
        dec_rep(v / 10).push(digit_char(v % 10))
    }
}

/// A digit character carries the digit it was made from.
proof fn lemma_digit_char_val(d: nat)
    requires
        d < 10,
    ensures
        is_digit(digit_char(d)),
        digit_val(digit_char(d)) == d,
{
    assert('0' as u32 == 48 && '1' as u32 == 49 && '2' as u32 == 50 && '3' as u32 == 51 && '4'
        as u32 == 52 && '5' as u32 == 53 && '6' as u32 == 54 && '7' as u32 == 55 && '8' as u32
        == 56 && '9' as u32 == 57);
}

/// The canonical rendering consists of digits and denotes the rendered number.
pub proof fn lemma_dec_rep_val(v: nat)
    ensures
        dec_rep(v).len() >= 1,
        all_digits(dec_rep(v)),
        dec_val(dec_rep(v)) == v,
    decreases v,
{
    if v < 10 {
        lemma_digit_char_val(v);
        assert(dec_rep(v) =~= seq![digit_char(v)]);
        assert(dec_rep(v).drop_last() =~= Seq::<char>::empty());
        assert(dec_val(Seq::<char>::empty()) == 0);
        assert(dec_rep(v).last() == digit_char(v));
        assert(dec_val(dec_rep(v)) == dec_val(Seq::<char>::empty()) * 10 + digit_val(
            digit_char(v),
        ));
    } else {
        lemma_dec_rep_val(v / 10);
        lemma_digit_char_val(v % 10);
        let prefix = dec_rep(v / 10);
        let whole = dec_rep(v);
        assert(whole =~= prefix.push(digit_char(v % 10)));
        assert(whole.drop_last() =~= prefix);
        assert(whole.last() == digit_char(v % 10));
        assert(dec_val(whole) == dec_val(whole.drop_last()) * 10 + digit_val(whole.last()));
        assert(v == (v / 10) * 10 + v % 10) by (nonlinear_arith);
        assert(forall|i: int|
            0 <= i < whole.len() ==> is_digit(#[trigger] whole[i]) == if i < prefix.len() {
                is_digit(prefix[i])
            } else {
                is_digit(digit_char(v % 10))
            });
    }
}

fn digit_str(d: u32) -> (r: &'static str)
    requires
        d < 10,
    ensures
        r@ == seq![digit_char(d as nat)],
{
    proof {
        reveal_strlit("0");
        reveal_strlit("1");
        reveal_strlit("2");
        reveal_strlit("3");
        reveal_strlit("4");
        reveal_strlit("5");
        reveal_strlit("6");
        reveal_strlit("7");
        reveal_strlit("8");
        reveal_strlit("9");
    }
    let r = if d == 0 {
        "0"
    } else if d == 1 {
        "1"
    } else if d == 2 {
        "2"
    } else if d == 3 {
        "3"
    } else if d == 4 {
        "4"
    } else if d == 5 {
        "5"
    } else if d == 6 {
        "6"
    } else if d == 7 {
        "7"
    } else if d == 8 {
        "8"
    } else {
        "9"
    };
    proof {
        assert(r@ =~= seq![digit_char(d as nat)]);
    }
    r
}

/// Render a number in decimal, as written into the configuration file.
pub fn u32_to_dec(v: u32) -> (r: String)
    ensures
        r@ == dec_rep(v as nat),
    decreases v,
{
    if v < 10 {
        digit_str(v).to_owned()
    } else {
        let mut s = u32_to_dec(v / 10);
        s.append(digit_str(v % 10));
        proof {
            assert(s@ =~= dec_rep((v / 10) as nat).push(digit_char((v % 10) as nat)));
        }
        s
    }
}

/// `needle` occurs contiguously somewhere in `haystack`.
pub open spec fn is_substring(haystack: Seq<char>, needle: Seq<char>) -> bool {
    exists|k: int|
        0 <= k && k + needle.len() <= haystack.len() && #[trigger] haystack.subrange(
            k,
            k + needle.len(),
        ) == needle
}

fn check_match_at(haystack: &str, needle: &str, k: usize) -> (r: bool)
    requires
        k + needle@.len() <= haystack@.len() <= usize::MAX,
    ensures
        r == (haystack@.subrange(k as int, k + needle@.len() as int) == needle@),
{
    let m = needle.unicode_len();
    let mut i: usize = 0;
    while i < m
        invariant
            0 <= i <= m,
            m == needle@.len(),
            k + m <= haystack@.len() <= usize::MAX,
            forall|j: int| 0 <= j < i ==> haystack@[k + j] == needle@[j],
        decreases m - i,
    {
        if haystack.get_char(k + i) != needle.get_char(i) {
            proof {
                assert(haystack@.subrange(k as int, k + needle@.len() as int) != needle@) by {
                    assert(haystack@.subrange(k as int, k + needle@.len() as int)[i as int]
                        == haystack@[k + i]);
                }
            }
            return false;
        }
        i += 1;
    }
    proof {
        assert(haystack@.subrange(k as int, k + needle@.len() as int) =~= needle@);
    }
    true
}

/// Substring containment, the classification primitive for shell detection.
pub fn str_contains(haystack: &str, needle: &str) -> (r: bool)
    ensures
        r == is_substring(haystack@, needle@),
{
    let n = haystack.unicode_len();
    let m = needle.unicode_len();
    if m == 0 {
        proof {
            assert(haystack@.subrange(0, 0 + needle@.len() as int) =~= needle@);
        }
        return true;
    }
    if m > n {
        return false;
    }
    let mut k: usize = 0;
    while k <= n - m
        invariant
            0 <= k <= n - m + 1,
            1 <= m <= n <= usize::MAX,
            n == haystack@.len(),
            m == needle@.len(),
            forall|j: int|
                0 <= j < k ==> #[trigger] haystack@.subrange(j, j + needle@.len() as int)
                    != needle@,
        decreases n - m + 1 - k,
    {
        if check_match_at(haystack, needle, k) {
            proof {
                assert(haystack@.subrange(k as int, k + needle@.len() as int) == needle@);
            }
            return true;
        }
        k += 1;
    }
    false
}

} // verus!
