//! Character-level text utilities shared by market discovery and the
//! bootstrap parsers: ASCII case folding, whitespace trimming, substring
//! search, and unsigned decimal parsing.

use vstd::prelude::*;

verus! {

/// ASCII lower-casing of one character; everything else is untouched.
pub open spec fn lower_char(c: char) -> char {
    if 'A' <= c && c <= 'Z' {
        ((c as u8) + 32) as char
    } else {
        c
    }
}

/// ASCII lower-casing of a character sequence.
pub open spec fn lower_chars(s: Seq<char>) -> Seq<char> {
    s.map_values(|c: char| lower_char(c))
}

/// The characters `str::trim` removes: the Unicode white-space set.
pub open spec fn is_space(c: char) -> bool {
    c == ' ' || c == '\t' || c == '\n' || c == '\r' || c == '\u{000b}' || c == '\u{000c}'
        || c == '\u{0085}' || c == '\u{00a0}' || c == '\u{1680}' || ('\u{2000}' <= c && c
        <= '\u{200a}') || c == '\u{2028}' || c == '\u{2029}' || c == '\u{202f}' || c == '\u{205f}'
        || c == '\u{3000}'
}

/// How many white-space characters the sequence starts with.
pub open spec fn leading_spaces(s: Seq<char>) -> int
    decreases s.len(),
{
    if s.len() == 0 {
        0
    } else if is_space(s[0]) {
        1 + leading_spaces(s.drop_first())
    } else {
        0
    }
}

/// How many white-space characters the sequence ends with.
pub open spec fn trailing_spaces(s: Seq<char>) -> int
    decreases s.len(),
{
    if s.len() == 0 {
        0
    } else if is_space(s.last()) {
        1 + trailing_spaces(s.drop_last())
    } else {
        0
    }
}

/// The sequence with leading and trailing white space removed.
pub open spec fn trim_chars(s: Seq<char>) -> Seq<char> {
    let lo = leading_spaces(s);
    if lo == s.len() {
        Seq::<char>::empty()
    } else {
        s.subrange(lo, s.len() - trailing_spaces(s))
    }
}

/// Whether `needle` occurs contiguously in `hay`.
pub open spec fn contains_seq(hay: Seq<char>, needle: Seq<char>) -> bool {
    exists|k: int|
        0 <= k && k + needle.len() <= hay.len() && #[trigger] hay.subrange(k, k + needle.len())
            == needle
}

pub open spec fn is_digit(c: char) -> bool {
    '0' <= c && c <= '9'
}

pub open spec fn digit_val(c: char) -> int {
    c as int - 48
}

pub open spec fn all_digits(s: Seq<char>) -> bool {
    forall|i: int| 0 <= i < s.len() ==> is_digit(s[i])
}

/// Value of a digit sequence, most significant first.
pub open spec fn digits_val(s: Seq<char>) -> int
    decreases s.len(),
{
    if s.len() == 0 {
        0
    } else {
        digits_val(s.drop_last()) * 10 + digit_val(s.last())
    }
}

/// The digit part of an unsigned decimal literal: everything after one
/// optional leading plus sign.
pub open spec fn unsigned_body(s: Seq<char>) -> Seq<char> {
    if s.len() > 0 && s[0] == '+' {
        s.drop_first()
    } else {
        s
    }
}

/// Whether `str::parse::<u64>` accepts the sequence: a non-empty run of
/// digits after an optional plus sign, with a value that fits in a `u64`.
pub open spec fn parses_as_u64(s: Seq<char>) -> bool {
    unsigned_body(s).len() > 0 && all_digits(unsigned_body(s)) && digits_val(unsigned_body(s))
        <= u64::MAX
}

/// Collects the characters of a string slice.
pub fn to_chars(s: &str) -> (r: Vec<char>)
    ensures
        r@ == s@,
{
    let n = s.unicode_len();
    let mut r: Vec<char> = Vec::new();
    let mut i: usize = 0;
    while i < n
        invariant
            0 <= i <= n,
            n == s@.len(),
            r@ == s@.take(i as int),
        decreases n - i,
    {
        let c = s.get_char(i);
        r.push(c);
        proof {
            assert(r@ =~= s@.take(i as int + 1));
        }
        i = i + 1;
    }
    proof {
        assert(s@.take(n as int) =~= s@);
    }
    r
}

/// ASCII lower-casing of one character.
pub fn lower_char_exec(c: char) -> (r: char)
    ensures
        r == lower_char(c),
{
    if 'A' <= c && c <= 'Z' {
        ((c as u8) + 32) as char
    } else {
        c
    }
}

/// ASCII lower-casing of a character vector.
pub fn lower_vec(s: &Vec<char>) -> (r: Vec<char>)
    ensures
        r@ == lower_chars(s@),
{
    let n = s.len();
    let mut r: Vec<char> = Vec::new();
    let mut i: usize = 0;
    while i < n
        invariant
            0 <= i <= n,
            n == s@.len(),
            r@.len() == i,
            forall|k: int| 0 <= k < i ==> r@[k] == lower_char(s@[k]),
        decreases n - i,
    {
        let c = lower_char_exec(s[i]);
        r.push(c);
        i = i + 1;
    }
    proof {
        assert(r@ =~= lower_chars(s@));
    }
    r
}

/// Whether `str::trim` would remove this character.
pub fn is_space_exec(c: char) -> (r: bool)
    ensures
        r == is_space(c),
{
    c == ' ' || c == '\t' || c == '\n' || c == '\r' || c == '\u{000b}' || c == '\u{000c}'
        || c == '\u{0085}' || c == '\u{00a0}' || c == '\u{1680}' || ('\u{2000}' <= c && c
        <= '\u{200a}') || c == '\u{2028}' || c == '\u{2029}' || c == '\u{202f}' || c == '\u{205f}'
        || c == '\u{3000}'
}

/// The bounds of the trimmed middle of `s`: `trim_chars(s@) == s@.subrange(lo, hi)`.
pub fn trim_bounds(s: &Vec<char>) -> (r: (usize, usize))
    ensures
        r.0 <= r.1 <= s@.len(),
        trim_chars(s@) == s@.subrange(r.0 as int, r.1 as int),
{
    let n = s.len();
    let mut lo: usize = 0;
    proof {
        assert(s@.skip(0) =~= s@);
    }
    while lo < n && is_space_exec(s[lo])
        invariant
            0 <= lo <= n,
            n == s@.len(),
            leading_spaces(s@) == lo + leading_spaces(s@.skip(lo as int)),
            forall|k: int| 0 <= k < lo ==> is_space(s@[k]),
        decreases n - lo,
    {
        proof {
            lemma_leading_spaces_step(s@, lo as int);
        }
        lo = lo + 1;
    }
    proof {
        lemma_leading_spaces_stop(s@, lo as int);
    }
    if lo == n {
        proof {
            assert(trim_chars(s@) =~= s@.subrange(lo as int, lo as int));
        }
        return (lo, lo);
    }
    let mut hi: usize = n;
    proof {
        assert(s@.take(n as int) =~= s@);
    }
    while hi > lo && is_space_exec(s[hi - 1])
        invariant
            lo < hi <= n,
            n == s@.len(),
            lo < n,
            leading_spaces(s@) == lo,
            !is_space(s@[lo as int]),
            trailing_spaces(s@) == (n - hi) + trailing_spaces(s@.take(hi as int)),
        decreases hi,
    {
        proof {
            lemma_trailing_spaces_step(s@, hi as int);
            assert(hi - 1 != lo);
        }
        hi = hi - 1;
    }
    proof {
        lemma_trailing_spaces_stop(s@, hi as int);
        assert(trim_chars(s@) =~= s@.subrange(lo as int, hi as int));
    }
    (lo, hi)
}

/// Leading-space count advances over one space.
proof fn lemma_leading_spaces_step(s: Seq<char>, i: int)
    requires
        0 <= i < s.len(),
        is_space(s[i]),
        leading_spaces(s) == i + leading_spaces(s.skip(i)),
    ensures
        leading_spaces(s) == i + 1 + leading_spaces(s.skip(i + 1)),
{
    assert(s.skip(i).len() > 0);
    assert(s.skip(i)[0] == s[i]);
    assert(s.skip(i).drop_first() =~= s.skip(i + 1));
}

/// Leading-space count stops at a non-space or the end.
proof fn lemma_leading_spaces_stop(s: Seq<char>, i: int)
    requires
        0 <= i <= s.len(),
        leading_spaces(s) == i + leading_spaces(s.skip(i)),
        i < s.len() ==> !is_space(s[i]),
    ensures
        leading_spaces(s) == i,
{
    if i < s.len() {
        assert(s.skip(i).len() > 0);
        assert(s.skip(i)[0] == s[i]);
    } else {
        assert(s.skip(i).len() == 0);
    }
}

/// Trailing-space count advances over one space.
proof fn lemma_trailing_spaces_step(s: Seq<char>, h: int)
    requires
        0 < h <= s.len(),
        is_space(s[h - 1]),
        trailing_spaces(s) == (s.len() - h) + trailing_spaces(s.take(h)),
    ensures
        trailing_spaces(s) == (s.len() - (h - 1)) + trailing_spaces(s.take(h - 1)),
{
    assert(s.take(h).len() == h);
    assert(s.take(h).last() == s[h - 1]);
    assert(s.take(h).drop_last() =~= s.take(h - 1));
}

/// Trailing-space count stops at a non-space.
proof fn lemma_trailing_spaces_stop(s: Seq<char>, h: int)
    requires
        0 < h <= s.len(),
        !is_space(s[h - 1]),
        trailing_spaces(s) == (s.len() - h) + trailing_spaces(s.take(h)),
    ensures
        trailing_spaces(s) == s.len() - h,
{
    assert(s.take(h).len() == h);
    assert(s.take(h).last() == s[h - 1]);
}

/// Whether `needle` occurs contiguously in `hay`.
pub fn contains_chars(hay: &Vec<char>, needle: &Vec<char>) -> (r: bool)
    ensures
        r == contains_seq(hay@, needle@),
{
    let n = hay.len();
    let m = needle.len();
    if m > n {
        proof {
            assert(!contains_seq(hay@, needle@));
        }
        return false;
    }
    if m == 0 {
        proof {
            assert(hay@.subrange(0, 0 + needle@.len() as int) =~= needle@);
            assert(contains_seq(hay@, needle@));
        }
        return true;
    }
    let mut k: usize = 0;
    while k <= n - m
        invariant
            0 <= k <= n - m + 1,
            0 < m <= n,
            n == hay@.len(),
            m == needle@.len(),
            forall|t: int| 0 <= t < k ==> #[trigger] hay@.subrange(t, t + m) != needle@,
        decreases n - k,
    {
        let mut j: usize = 0;
        let mut matched = true;
        while j < m
            invariant
                0 <= j <= m,
                0 <= k <= n - m,
                n == hay@.len(),
                m == needle@.len(),
                matched ==> forall|t: int| 0 <= t < j ==> hay@[k + t] == needle@[t],
                !matched ==> hay@.subrange(k as int, k as int + m) != needle@,
            decreases m - j,
        {
            if hay[k + j] != needle[j] {
                proof {
                    assert(hay@.subrange(k as int, k as int + m)[j as int] == hay@[k + j]);
                }
                matched = false;
                j = m;
            } else {
                j = j + 1;
            }
        }
        if matched {
            proof {
                assert(hay@.subrange(k as int, k as int + m) =~= needle@);
            }
            return true;
        }
        k = k + 1;
    }
    proof {
        assert forall|t: int| 0 <= t && t + m <= n implies #[trigger] hay@.subrange(t, t + m)
            != needle@ by {
            assert(t < k);
        }
    }
    false
}

/// First index of `c` in `s`, if any.
pub open spec fn find_char(s: Seq<char>, c: char) -> int
    decreases s.len(),
{
    if s.len() == 0 {
        -1
    } else if s[0] == c {
        0
    } else {
        let rest = find_char(s.drop_first(), c);
        if rest == -1 {
            -1
        } else {
            rest + 1
        }
    }
}

/// Copies the characters in `[lo, hi)`.
pub fn subrange_vec(s: &Vec<char>, lo: usize, hi: usize) -> (r: Vec<char>)
    requires
        lo <= hi <= s@.len(),
    ensures
        r@ == s@.subrange(lo as int, hi as int),
{
    let mut r: Vec<char> = Vec::new();
    let mut k: usize = lo;
    while k < hi
        invariant
            lo <= k <= hi <= s@.len(),
            r@ == s@.subrange(lo as int, k as int),
        decreases hi - k,
    {
        r.push(s[k]);
        proof {
            assert(r@ =~= s@.subrange(lo as int, k as int + 1));
        }
        k = k + 1;
    }
    r
}

/// Character-for-character equality.
pub fn chars_eq(a: &Vec<char>, b: &Vec<char>) -> (r: bool)
    ensures
        r == (a@ == b@),
{
    let n = a.len();
    if n != b.len() {
        return false;
    }
    let mut i: usize = 0;
    while i < n
        invariant
            0 <= i <= n,
            n == a@.len() == b@.len(),
            forall|k: int| 0 <= k < i ==> a@[k] == b@[k],
        decreases n - i,
    {
        if a[i] != b[i] {
            return false;
        }
        i = i + 1;
    }
    proof {
        assert(a@ =~= b@);
    }
    true
}

/// The first-occurrence index is `-1` or a valid position.
proof fn lemma_find_char_bounds(s: Seq<char>, c: char)
    ensures
        -1 <= find_char(s, c) < s.len(),
    decreases s.len(),
{
    if s.len() > 0 && s[0] != c {
        lemma_find_char_bounds(s.drop_first(), c);
    }
}

/// Finds the first occurrence of `c`.
pub fn find_char_exec(s: &Vec<char>, c: char) -> (r: Option<usize>)
    ensures
        r is Some ==> find_char(s@, c) == r->Some_0 as int && r->Some_0 < s@.len(),
        r is None ==> find_char(s@, c) == -1,
{
    let n = s.len();
    let mut i: usize = 0;
    proof {
        assert(s@.skip(0) =~= s@);
    }
    while i < n
        invariant
            0 <= i <= n,
            n == s@.len(),
            find_char(s@, c) == if find_char(s@.skip(i as int), c) == -1 {
                -1int
            } else {
                i + find_char(s@.skip(i as int), c)
            },
            forall|k: int| 0 <= k < i ==> s@[k] != c,
        decreases n - i,
    {
        proof {
            assert(s@.skip(i as int).len() > 0);
            assert(s@.skip(i as int)[0] == s@[i as int]);
            assert(s@.skip(i as int).drop_first() =~= s@.skip(i as int + 1));
        }
        if s[i] == c {
            proof {
                assert(find_char(s@.skip(i as int), c) == 0);
            }
            return Some(i);
        }
        proof {
            lemma_find_char_bounds(s@.skip(i as int + 1), c);
            assert(find_char(s@.skip(i as int), c) == (if find_char(s@.skip(i as int + 1), c)
                == -1 {
                -1int
            } else {
                find_char(s@.skip(i as int + 1), c) + 1
            }));
        }
        i = i + 1;
    }
    proof {
        assert(s@.skip(n as int).len() == 0);
    }
    None
}

/// Parses an unsigned decimal with one optional leading plus sign, exactly as
/// `str::parse::<u64>` accepts it.
pub fn parse_u64_chars(s: &Vec<char>) -> (r: Option<u64>)
    ensures
        r is Some <==> parses_as_u64(s@),
        r is Some ==> r->Some_0 as int == digits_val(unsigned_body(s@)),
{
    let start: usize = if s.len() > 0 && s[0] == '+' {
        1
    } else {
        0
    };
    let ghost body = unsigned_body(s@);
    proof {
        assert(body =~= s@.skip(start as int));
    }
    let n = s.len();
    if start == n {
        return None;
    }
    let mut value: u64 = 0;
    let mut i: usize = start;
    while i < n
        invariant
            start <= i <= n,
            n == s@.len(),
            start <= 1,
            body == s@.skip(start as int),
            body == unsigned_body(s@),
            all_digits(body.take(i - start)),
            value as int == digits_val(body.take(i - start)),
        decreases n - i,
    {
        let c = s[i];
        if c < '0' || c > '9' {
            proof {
                assert(body[i - start] == s@[i as int]);
                assert(!is_digit(body[i - start]));
                assert(!all_digits(body));
            }
            return None;
        }
        let d: u64 = (c as u8 - 48) as u64;
        proof {
            assert(is_digit(s@[i as int]));
            assert(body[i - start] == s@[i as int]);
            assert(d as int == digit_val(s@[i as int]));
            assert(all_digits(body.take(i - start + 1))) by {
                assert(forall|t: int|
                    0 <= t < i - start + 1 ==> body.take(i - start + 1)[t] == body[t]);
                assert(forall|t: int|
                    0 <= t < i - start ==> is_digit(#[trigger] body.take(i - start)[t]));
                assert(forall|t: int| 0 <= t < i - start ==> body.take(i - start)[t] == body[t]);
            }
        }
        if value > (u64::MAX - d) / 10 {
            proof {
                lemma_digits_val_snoc(body, i - start);
                lemma_digits_val_grows(body, i + 1 - start);
                assert(digits_val(body.take(i + 1 - start)) > u64::MAX);
                assert(!parses_as_u64(s@));
            }
            return None;
        }
        proof {
            lemma_digits_val_snoc(body, i - start);
        }
        value = value * 10 + d;
        i = i + 1;
    }
    proof {
        assert(body.take(n - start) =~= body);
    }
    Some(value)
}

/// Digit values extend by one digit at the end.
proof fn lemma_digits_val_snoc(s: Seq<char>, i: int)
    requires
        0 <= i < s.len(),
    ensures
        digits_val(s.take(i + 1)) == digits_val(s.take(i)) * 10 + digit_val(s[i]),
{
    assert(s.take(i + 1).len() == i + 1);
    assert(s.take(i + 1).last() == s[i]);
    assert(s.take(i + 1).drop_last() =~= s.take(i));
}

/// A longer digit prefix never has a smaller value.
proof fn lemma_digits_val_grows(s: Seq<char>, j: int)
    requires
        0 <= j <= s.len(),
        all_digits(s.take(j)),
    ensures
        digits_val(s) >= digits_val(s.take(j)) || !all_digits(s),
    decreases s.len() - j,
{
    if j < s.len() {
        if all_digits(s) {
            lemma_digits_val_snoc(s, j);
            assert(is_digit(s[j]));
            assert(digits_val(s.take(j + 1)) >= digits_val(s.take(j)) * 10) by {
                assert(digit_val(s[j]) >= 0);
            }
            assert(digits_val(s.take(j)) >= 0) by {
                lemma_digits_val_nonneg(s.take(j));
            }
            assert(all_digits(s.take(j + 1)));
            lemma_digits_val_grows(s, j + 1);
            assert(digits_val(s.take(j + 1)) >= digits_val(s.take(j))) by (nonlinear_arith)
                requires
                    digits_val(s.take(j + 1)) >= digits_val(s.take(j)) * 10,
                    digits_val(s.take(j)) >= 0,
            ;
        }
    } else {
        assert(s.take(j) =~= s);
    }
}

/// A digit sequence has a non-negative value.
proof fn lemma_digits_val_nonneg(s: Seq<char>)
    requires
        all_digits(s),
    ensures
        digits_val(s) >= 0,
    decreases s.len(),
{
    if s.len() > 0 {
        assert(all_digits(s.drop_last())) by {
            assert(forall|i: int| 0 <= i < s.len() - 1 ==> s.drop_last()[i] == s[i]);
        }
        lemma_digits_val_nonneg(s.drop_last());
        assert(is_digit(s.last()));
        assert(digits_val(s.drop_last()) * 10 >= 0) by (nonlinear_arith)
            requires
                digits_val(s.drop_last()) >= 0,
        ;
    }
}

} // verus!
