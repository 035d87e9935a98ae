//! Character-level text utilities: token splitting, prefix and substring
//! tests, and decimal parsing with grouping separators.
//!
//! Everything here is stated over `Seq<char>` views of `&str` values, so
//! the parsing functions built on top of it (progress lines, mount tables,
//! device attributes) get exact contracts.

use vstd::prelude::*;
use vstd::string::*;

verus! {

/// Whitespace for the purposes of token splitting: space, tab, carriage
/// return, newline.
pub open spec fn is_space(c: char) -> bool {
    c == ' ' || c == '\t' || c == '\r' || c == '\n'
}

pub fn char_is_space(c: char) -> (r: bool)
    ensures
        r == is_space(c),
{
    c == ' ' || c == '\t' || c == '\r' || c == '\n'
}

/// Index of the first character at or after `from` that is not whitespace,
/// or the length of `s` if every remaining character is whitespace.
pub open spec fn token_start(s: Seq<char>, from: int) -> int
    decreases s.len() - from when 0 <= from <= s.len()
{
    if from >= s.len() {
        s.len() as int
    } else if is_space(s[from]) {
        token_start(s, from + 1)
    } else {
        from
    }
}

/// Index of the first whitespace character at or after `from`, or the
/// length of `s` if every remaining character is non-whitespace.
pub open spec fn token_end(s: Seq<char>, from: int) -> int
    decreases s.len() - from when 0 <= from <= s.len()
{
    if from >= s.len() {
        s.len() as int
    } else if !is_space(s[from]) {
        token_end(s, from + 1)
    } else {
        from
    }
}

/// The first whitespace-delimited token of `s`: what remains after
/// skipping leading whitespace, up to the next whitespace character.
/// Empty when `s` is empty or all whitespace.
pub open spec fn first_token(s: Seq<char>) -> Seq<char> {
    s.subrange(token_start(s, 0), token_end(s, token_start(s, 0)))
}

/// Find `token_start(s@, from)` by scanning.
pub fn find_token_start(s: &str, from: usize) -> (r: usize)
    requires
        from <= s@.len(),
    ensures
        r == token_start(s@, from as int),
        from <= r <= s@.len(),
{
    let n = s.unicode_len();
    let mut i: usize = from;
    loop
        invariant
            n == s@.len(),
            from <= i <= n,
            token_start(s@, from as int) == token_start(s@, i as int),
        ensures
            i == token_start(s@, from as int),
            from <= i <= n,
        decreases n - i,
    {
        if i >= n {
            break;
        }
        if !char_is_space(s.get_char(i)) {
            break;
        }
        i = i + 1;
    }
    i
}

/// Find `token_end(s@, from)` by scanning.
pub fn find_token_end(s: &str, from: usize) -> (r: usize)
    requires
        from <= s@.len(),
    ensures
        r == token_end(s@, from as int),
        from <= r <= s@.len(),
{
    let n = s.unicode_len();
    let mut i: usize = from;
    loop
        invariant
            n == s@.len(),
            from <= i <= n,
            token_end(s@, from as int) == token_end(s@, i as int),
        ensures
            i == token_end(s@, from as int),
            from <= i <= n,
        decreases n - i,
    {
        if i >= n {
            break;
        }
        if char_is_space(s.get_char(i)) {
            break;
        }
        i = i + 1;
    }
    i
}

/// Start and end indices of the first whitespace-delimited token of `s`.
pub fn token_span(s: &str) -> (r: (usize, usize))
    ensures
        r.0 == token_start(s@, 0),
        r.1 == token_end(s@, r.0 as int),
        r.0 <= r.1 <= s@.len(),
{
    let start = find_token_start(s, 0);
    let end = find_token_end(s, start);
    (start, end)
}

/// `p` is a prefix of `s`.
pub open spec fn starts_with(s: Seq<char>, p: Seq<char>) -> bool {
    p.len() <= s.len() && (forall|i: int| 0 <= i < p.len() ==> s[i] == p[i])
}

pub fn str_starts_with(s: &str, p: &str) -> (r: bool)
    ensures
        r == starts_with(s@, p@),
{
    let n = s.unicode_len();
    let m = p.unicode_len();
    if m > n {
        return false;
    }
    let mut i: usize = 0;
    loop
        invariant
            n == s@.len(),
            m == p@.len(),
            m <= n,
            0 <= i <= m,
            forall|k: int| 0 <= k < i ==> s@[k] == p@[k],
        ensures
            i <= m,
            forall|k: int| 0 <= k < i ==> s@[k] == p@[k],
            i < m ==> s@[i as int] != p@[i as int],
        decreases m - i,
    {
        if i >= m {
            break;
        }
        if s.get_char(i) != p.get_char(i) {
            break;
        }
        i = i + 1;
    }
    i == m
}

/// `p` occurs in `s` starting at index `i`.
pub open spec fn matches_at(s: Seq<char>, p: Seq<char>, i: int) -> bool {
    i + p.len() <= s.len() && (forall|k: int| 0 <= k < p.len() ==> s[i + k] == p[k])
}

/// `p` occurs somewhere in `s` as a contiguous run.
pub open spec fn contains_seq(s: Seq<char>, p: Seq<char>) -> bool {
    exists|i: int| 0 <= i <= s.len() && matches_at(s, p, i)
}

fn str_matches_at(s: &str, p: &str, i: usize) -> (r: bool)
    requires
        i <= s@.len(),
    ensures
        r == matches_at(s@, p@, i as int),
{
    let n = s.unicode_len();
    let m = p.unicode_len();
    if m > n - i {
        return false;
    }
    let mut k: usize = 0;
    loop
        invariant
            n == s@.len(),
            m == p@.len(),
            i + m <= n,
            0 <= k <= m,
            forall|j: int| 0 <= j < k ==> s@[i + j] == p@[j],
        ensures
            k <= m,
            forall|j: int| 0 <= j < k ==> s@[i + j] == p@[j],
            k < m ==> s@[i + k] != p@[k as int],
        decreases m - k,
    {
        if k >= m {
            break;
        }
        if s.get_char(i + k) != p.get_char(k) {
            break;
        }
        k = k + 1;
    }
    k == m
}

pub fn str_contains(s: &str, p: &str) -> (r: bool)
    ensures
        r == contains_seq(s@, p@),
{
    let n = s.unicode_len();
    let m = p.unicode_len();
    if m == 0 {
        proof {
            assert(matches_at(s@, p@, 0));
        }
        return true;
    }
    if m > n {
        proof {
            assert(forall|j: int| 0 <= j <= s@.len() ==> !matches_at(s@, p@, j));
        }
        return false;
    }
    let mut i: usize = 0;
    let mut found: bool = false;
    loop
        invariant
            n == s@.len(),
            m == p@.len(),
            0 < m <= n,
            0 <= i <= n - m + 1,
            found ==> i <= n - m && matches_at(s@, p@, i as int),
            !found ==> forall|j: int| 0 <= j < i ==> !matches_at(s@, p@, j),
        ensures
            found == contains_seq(s@, p@),
        decreases n - m + 1 - i,
    {
        if i > n - m {
            proof {
                assert(forall|j: int| i <= j <= s@.len() ==> !matches_at(s@, p@, j));
            }
            break;
        }
        if str_matches_at(s, p, i) {
            found = true;
            break;
        }
        i = i + 1;
    }
    found
}

/// Two string slices hold the same characters.
pub fn str_equal(a: &str, b: &str) -> (r: bool)
    ensures
        r == (a@ == b@),
{
    let n = a.unicode_len();
    let m = b.unicode_len();
    if n != m {
        return false;
    }
    let mut i: usize = 0;
    loop
        invariant
            n == a@.len(),
            n == b@.len(),
            0 <= i <= n,
            forall|k: int| 0 <= k < i ==> a@[k] == b@[k],
        ensures
            i <= n,
            forall|k: int| 0 <= k < i ==> a@[k] == b@[k],
            i < n ==> a@[i as int] != b@[i as int],
        decreases n - i,
    {
        if i >= n {
            break;
        }
        if a.get_char(i) != b.get_char(i) {
            break;
        }
        i = i + 1;
    }
    if i == n {
        proof {
            assert(a@ =~= b@);
        }
        true
    } else {
        false
    }
}

/// A decimal digit.
pub open spec fn is_digit(c: char) -> bool {
    48 <= c as u32 && c as u32 <= 57
}

pub open spec fn digit_value(c: char) -> nat {
    if is_digit(c) {
        (c as u32 - 48) as nat
    } else {
        0
    }
}

pub open spec fn all_digits(s: Seq<char>) -> bool {
    forall|i: int| 0 <= i < s.len() ==> is_digit(s[i])
}

/// The value of a sequence of decimal digits, most significant first.
pub open spec fn digits_value(s: Seq<char>) -> nat
    decreases s.len(),
{
    if s.len() == 0 {
        0
    } else {
        digits_value(s.drop_last()) * 10 + digit_value(s.last())
    }
}

/// Unsigned decimal parsing: a non-empty all-digit sequence whose value
/// fits in a `u64`; anything else fails.
pub open spec fn parse_decimal(s: Seq<char>) -> Option<u64> {
    if s.len() > 0 && all_digits(s) && digits_value(s) <= u64::MAX {
        Some(digits_value(s) as u64)
    } else {
        None
    }
}

/// `s` with every comma (digit grouping separator) removed.
pub open spec fn strip_commas(s: Seq<char>) -> Seq<char>
    decreases s.len(),
{
    if s.len() == 0 {
        Seq::empty()
    } else if s.last() == ',' {
        strip_commas(s.drop_last())
    } else {
        strip_commas(s.drop_last()).push(s.last())
    }
}

pub proof fn lemma_strip_commas_concat(a: Seq<char>, b: Seq<char>)
    ensures
        strip_commas(a + b) == strip_commas(a) + strip_commas(b),
    decreases b.len(),
{
    if b.len() == 0 {
        assert(a + b =~= a);
        assert(strip_commas(a) + Seq::<char>::empty() =~= strip_commas(a));
    } else {
        assert((a + b).drop_last() =~= a + b.drop_last());
        lemma_strip_commas_concat(a, b.drop_last());
        if b.last() != ',' {
            assert(strip_commas(a) + strip_commas(b.drop_last()).push(b.last()) =~= (
            strip_commas(a) + strip_commas(b.drop_last())).push(b.last()));
        }
    }
}

/// Appending characters never lowers the value a digit sequence denotes.
pub proof fn lemma_digits_value_concat_ge(a: Seq<char>, b: Seq<char>)
    ensures
        digits_value(a + b) >= digits_value(a),
    decreases b.len(),
{
    if b.len() == 0 {
        assert(a + b =~= a);
    } else {
        assert((a + b).drop_last() =~= a + b.drop_last());
        lemma_digits_value_concat_ge(a, b.drop_last());
    }
}

/// Parse a decimal token after removing comma grouping separators.
/// Mirrors `parse_decimal(strip_commas(s))` exactly.
pub fn parse_grouped_decimal(s: &str) -> (r: Option<u64>)
    ensures
        r == parse_decimal(strip_commas(s@)),
{
    let n = s.unicode_len();
    let mut acc: u64 = 0;
    let mut seen_digit: bool = false;
    let mut i: usize = 0;
    let ghost mut g: Seq<char> = Seq::empty();
    proof {
        assert(s@.subrange(0, 0) =~= Seq::<char>::empty());
    }
    while i < n
        invariant
            n == s@.len(),
            0 <= i <= n,
            g == strip_commas(s@.subrange(0, i as int)),
            all_digits(g),
            acc == digits_value(g),
            seen_digit == (g.len() > 0),
        decreases n - i,
    {
        let c = s.get_char(i);
        proof {
            assert(s@.subrange(0, i + 1).drop_last() =~= s@.subrange(0, i as int));
            assert(s@.subrange(0, i + 1).last() == s@[i as int]);
        }
        if c == ',' {
            // separator: stripped out
        } else if c < '0' || c > '9' {
            // a non-digit lands in the stripped sequence, so parsing fails
            proof {
                let pre = s@.subrange(0, i + 1);
                let post = s@.subrange(i + 1, n as int);
                assert(pre + post =~= s@);
                lemma_strip_commas_concat(pre, post);
                assert(strip_commas(pre) == g.push(c));
                let full = strip_commas(s@);
                assert(full == g.push(c) + strip_commas(post));
                assert(full[g.len() as int] == c);
                assert(!is_digit(c));
                assert(!all_digits(full));
            }
            return None;
        } else {
            let d: u64 = (c as u32 - 48) as u64;
            proof {
                assert(is_digit(c));
                assert(d == digit_value(c));
            }
            if acc > (u64::MAX - d) / 10 {
                // the value can no longer fit in a u64
                proof {
                    let pre = s@.subrange(0, i + 1);
                    let post = s@.subrange(i + 1, n as int);
                    assert(pre + post =~= s@);
                    lemma_strip_commas_concat(pre, post);
                    assert(strip_commas(pre) == g.push(c));
                    let full = strip_commas(s@);
                    assert(full == g.push(c) + strip_commas(post));
                    assert(g.push(c).drop_last() =~= g);
                    assert(digits_value(g.push(c)) == acc * 10 + d);
                    let q = (u64::MAX - d) / 10;
                    assert(u64::MAX - d == 10 * q + (u64::MAX - d) % 10) by {
                        vstd::arithmetic::div_mod::lemma_fundamental_div_mod(
                            (u64::MAX - d) as int,
                            10,
                        );
                    }
                    assert(acc * 10 >= (q + 1) * 10);
                    assert(digits_value(g.push(c)) > u64::MAX);
                    lemma_digits_value_concat_ge(g.push(c), strip_commas(post));
                    assert(digits_value(full) > u64::MAX);
                }
                return None;
            }
            proof {
                let q = (u64::MAX - d) / 10;
                assert(u64::MAX - d == 10 * q + (u64::MAX - d) % 10) by {
                    vstd::arithmetic::div_mod::lemma_fundamental_div_mod(
                        (u64::MAX - d) as int,
                        10,
                    );
                }
                assert(acc * 10 + d <= u64::MAX);
                assert(g.push(c).drop_last() =~= g);
            }
            acc = acc * 10 + d;
            seen_digit = true;
            proof {
                g = g.push(c);
            }
        }
        i = i + 1;
    }
    proof {
        assert(s@.subrange(0, n as int) =~= s@);
    }
    if seen_digit {
        Some(acc)
    } else {
        None
    }
}

/// Parse a plain decimal string (no grouping separators accepted).
pub fn parse_plain_decimal(s: &str) -> (r: Option<u64>)
    ensures
        r == parse_decimal(s@),
{
    let n = s.unicode_len();
    if n == 0 {
        return None;
    }
    let mut acc: u64 = 0;
    let mut i: usize = 0;
    while i < n
        invariant
            n == s@.len(),
            0 <= i <= n,
            all_digits(s@.subrange(0, i as int)),
            acc == digits_value(s@.subrange(0, i as int)),
        decreases n - i,
    {
        let c = s.get_char(i);
        proof {
            assert(s@.subrange(0, i + 1).drop_last() =~= s@.subrange(0, i as int));
            assert(s@.subrange(0, i + 1).last() == s@[i as int]);
        }
        if c < '0' || c > '9' {
            proof {
                assert(!is_digit(s@[i as int]));
            }
            return None;
        }
        let d: u64 = (c as u32 - 48) as u64;
        proof {
            assert(is_digit(c));
            assert(d == digit_value(c));
        }
        if acc > (u64::MAX - d) / 10 {
            proof {
                let pre = s@.subrange(0, i + 1);
                let post = s@.subrange(i + 1, n as int);
                assert(pre + post =~= s@);
                let q = (u64::MAX - d) / 10;
                assert(u64::MAX - d == 10 * q + (u64::MAX - d) % 10) by {
                    vstd::arithmetic::div_mod::lemma_fundamental_div_mod((u64::MAX - d) as int, 10);
                }
                assert(acc * 10 >= (q + 1) * 10);
                assert(digits_value(pre) == acc * 10 + d);
                lemma_digits_value_concat_ge(pre, post);
                assert(digits_value(s@) > u64::MAX);
            }
            return None;
        }
        proof {
            let q = (u64::MAX - d) / 10;
            assert(u64::MAX - d == 10 * q + (u64::MAX - d) % 10) by {
                vstd::arithmetic::div_mod::lemma_fundamental_div_mod((u64::MAX - d) as int, 10);
            }
            assert(acc * 10 + d <= u64::MAX);
        }
        acc = acc * 10 + d;
        i = i + 1;
    }
    proof {
        assert(s@.subrange(0, n as int) =~= s@);
    }
    Some(acc)
}

} // verus!
