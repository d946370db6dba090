//! Reading the catalogs' text: lines of `key = value` assignments, read
//! character by character.

use vstd::prelude::*;
use vstd::std_specs::iter::IteratorSpec;
use vstd::string::StrSliceExecFns;
use crate::text::{is_white, white};

verus! {

broadcast use vstd::string::axiom_spec_iter, vstd::string::next_postcondition;

/// The characters of a text, one by one.
pub fn chars_of(s: &str) -> (r: Vec<char>)
    ensures
        r@ == s@,
{
    let mut it = s.chars();
    let mut out: Vec<char> = Vec::new();
    let mut done = false;
    while !done
        invariant
            !done ==> out@ + it.remaining() == s@,
            done ==> out@ == s@,
            out@.len() <= s@.len(),
        decreases s@.len() - out@.len() + (if done {
            0int
        } else {
            1int
        }),
    {
        match it.next() {
            Some(c) => {
                out.push(c);
            },
            None => {
                done = true;
            },
        }
    }
    out
}


// ---------------------------------------------------------------------------
// Scanning a range of characters.

/// The first position in `[i, end)` that holds `c`, or `end`.
pub open spec fn next_char(s: Seq<char>, c: char, i: int, end: int) -> int
    decreases end - i,
{
    if i >= end {
        end
    } else if s[i] == c {
        i
    } else {
        next_char(s, c, i + 1, end)
    }
}

/// The first position in `[i, end)` whose character the test refuses, or
/// `end`.
pub open spec fn skip_while(s: Seq<char>, test: spec_fn(char) -> bool, i: int, end: int) -> int
    decreases end - i,
{
    if i >= end {
        end
    } else if !test(s[i]) {
        i
    } else {
        skip_while(s, test, i + 1, end)
    }
}

/// The end of `[start, j)` once the characters that the test accepts are
/// taken off its back.
pub open spec fn back_while(s: Seq<char>, test: spec_fn(char) -> bool, start: int, j: int) -> int
    decreases j - start,
{
    if j <= start {
        start
    } else if !test(s[j - 1]) {
        j
    } else {
        back_while(s, test, start, j - 1)
    }
}

pub open spec fn white_test() -> spec_fn(char) -> bool {
    |c: char| is_white(c)
}

pub open spec fn char_test(c: char) -> spec_fn(char) -> bool {
    |d: char| d == c
}

/// `[a, b)` with white space taken off both ends, as `str::trim` does.
pub open spec fn trim_start(s: Seq<char>, a: int, b: int) -> int {
    skip_while(s, white_test(), a, b)
}

pub open spec fn trim_end(s: Seq<char>, a: int, b: int) -> int {
    back_while(s, white_test(), trim_start(s, a, b), b)
}

pub open spec fn trimmed(s: Seq<char>, a: int, b: int) -> Seq<char> {
    s.subrange(trim_start(s, a, b), trim_end(s, a, b))
}

/// The search for a character ends inside the range searched.
pub proof fn lemma_next_char_bounds(s: Seq<char>, c: char, i: int, end: int)
    requires
        i <= end,
    ensures
        i <= next_char(s, c, i, end) <= end,
    decreases end - i,
{
    if i < end && s[i] != c {
        lemma_next_char_bounds(s, c, i + 1, end);
    }
}

pub(crate) proof fn lemma_next_char(s: Seq<char>, c: char, i: int, end: int)
    requires
        0 <= i <= end <= s.len(),
    ensures
        i <= next_char(s, c, i, end) <= end,
        next_char(s, c, i, end) < end ==> s[next_char(s, c, i, end)] == c,
    decreases end - i,
{
    if i < end && s[i] != c {
        lemma_next_char(s, c, i + 1, end);
    }
}

pub(crate) proof fn lemma_skip_while(s: Seq<char>, test: spec_fn(char) -> bool, i: int, end: int)
    requires
        0 <= i <= end <= s.len(),
    ensures
        i <= skip_while(s, test, i, end) <= end,
    decreases end - i,
{
    if i < end && test(s[i]) {
        lemma_skip_while(s, test, i + 1, end);
    }
}

pub(crate) proof fn lemma_back_while(s: Seq<char>, test: spec_fn(char) -> bool, start: int, j: int)
    requires
        0 <= start <= j <= s.len(),
    ensures
        start <= back_while(s, test, start, j) <= j,
    decreases j - start,
{
    if start < j && test(s[j - 1]) {
        lemma_back_while(s, test, start, j - 1);
    }
}

pub(crate) fn find_char(s: &Vec<char>, c: char, i: usize, end: usize) -> (r: usize)
    requires
        i <= end <= s@.len(),
    ensures
        r == next_char(s@, c, i as int, end as int),
        i <= r <= end,
{
    let mut k = i;
    while k < end && s[k] != c
        invariant
            i <= k <= end <= s@.len(),
            next_char(s@, c, k as int, end as int) == next_char(s@, c, i as int, end as int),
        decreases end - k,
    {
        k = k + 1;
    }
    k
}

pub(crate) fn skip_white(s: &Vec<char>, i: usize, end: usize) -> (r: usize)
    requires
        i <= end <= s@.len(),
    ensures
        r == skip_while(s@, white_test(), i as int, end as int),
        i <= r <= end,
{
    let mut k = i;
    while k < end && white(s[k])
        invariant
            i <= k <= end <= s@.len(),
            skip_while(s@, white_test(), k as int, end as int) == skip_while(
                s@,
                white_test(),
                i as int,
                end as int,
            ),
        decreases end - k,
    {
        k = k + 1;
    }
    k
}

pub(crate) fn back_white(s: &Vec<char>, start: usize, j: usize) -> (r: usize)
    requires
        start <= j <= s@.len(),
    ensures
        r == back_while(s@, white_test(), start as int, j as int),
        start <= r <= j,
{
    let mut k = j;
    while k > start && white(s[k - 1])
        invariant
            start <= k <= j <= s@.len(),
            back_while(s@, white_test(), start as int, k as int) == back_while(
                s@,
                white_test(),
                start as int,
                j as int,
            ),
        decreases k - start,
    {
        k = k - 1;
    }
    k
}

pub(crate) fn skip_char(s: &Vec<char>, c: char, i: usize, end: usize) -> (r: usize)
    requires
        i <= end <= s@.len(),
    ensures
        r == skip_while(s@, char_test(c), i as int, end as int),
        i <= r <= end,
{
    let mut k = i;
    while k < end && s[k] == c
        invariant
            i <= k <= end <= s@.len(),
            skip_while(s@, char_test(c), k as int, end as int) == skip_while(
                s@,
                char_test(c),
                i as int,
                end as int,
            ),
        decreases end - k,
    {
        k = k + 1;
    }
    k
}

pub(crate) fn back_char(s: &Vec<char>, c: char, start: usize, j: usize) -> (r: usize)
    requires
        start <= j <= s@.len(),
    ensures
        r == back_while(s@, char_test(c), start as int, j as int),
        start <= r <= j,
{
    let mut k = j;
    while k > start && s[k - 1] == c
        invariant
            start <= k <= j <= s@.len(),
            back_while(s@, char_test(c), start as int, k as int) == back_while(
                s@,
                char_test(c),
                start as int,
                j as int,
            ),
        decreases k - start,
    {
        k = k - 1;
    }
    k
}

/// The range `[a, b)` of `s` spells `word`.
pub(crate) fn range_equals(s: &Vec<char>, a: usize, b: usize, word: &Vec<char>) -> (r: bool)
    requires
        a <= b <= s@.len(),
    ensures
        r == (s@.subrange(a as int, b as int) == word@),
{
    if b - a != word.len() {
        return false;
    }
    let mut k: usize = 0;
    while k < word.len()
        invariant
            a <= b <= s@.len(),
            b - a == word@.len(),
            k <= word@.len(),
            forall|q: int| 0 <= q < k ==> s@[a + q] == #[trigger] word@[q],
        decreases word@.len() - k,
    {
        if s[a + k] != word[k] {
            assert(s@.subrange(a as int, b as int)[k as int] != word@[k as int]);
            return false;
        }
        k = k + 1;
    }
    assert(s@.subrange(a as int, b as int) =~= word@);
    true
}

// ---------------------------------------------------------------------------
// Numbers, read as `str::parse` reads them.

/// The value of a run of decimal digits.
pub open spec fn digits_value(d: Seq<char>) -> int
    decreases d.len(),
{
    if d.len() == 0 {
        0
    } else {
        digits_value(d.drop_last()) * 10 + (d.last() as int - 48)
    }
}

/// One digit or more, and nothing else.
pub open spec fn is_digits(d: Seq<char>) -> bool {
    d.len() > 0 && forall|i: int| 0 <= i < d.len() ==> '0' <= #[trigger] d[i] <= '9'
}

/// The text as an integer between `low` and `high`: an optional sign, `+`
/// or, where `low` is negative, `-`, then digits.
pub open spec fn parse_integer(t: Seq<char>, low: int, high: int) -> Option<int> {
    if low < 0 && t.len() > 0 && t[0] == '-' {
        let d = t.skip(1);
        if is_digits(d) && low <= -digits_value(d) {
            Some(-digits_value(d))
        } else {
            None
        }
    } else {
        let d = if t.len() > 0 && t[0] == '+' {
            t.skip(1)
        } else {
            t
        };
        if is_digits(d) && digits_value(d) <= high {
            Some(digits_value(d))
        } else {
            None
        }
    }
}

pub(crate) proof fn lemma_digits_grow(d: Seq<char>, k: int)
    requires
        0 <= k <= d.len(),
        forall|i: int| 0 <= i < d.len() ==> '0' <= #[trigger] d[i] <= '9',
    ensures
        0 <= digits_value(d.take(k)) <= digits_value(d),
    decreases d.len() - k,
{
    if k < d.len() {
        lemma_digits_grow(d, k + 1);
        assert(d.take(k + 1).drop_last() =~= d.take(k));
    } else {
        assert(d.take(k) =~= d);
        lemma_digits_nonnegative(d);
    }
}

pub(crate) proof fn lemma_digits_nonnegative(d: Seq<char>)
    requires
        forall|i: int| 0 <= i < d.len() ==> '0' <= #[trigger] d[i] <= '9',
    ensures
        0 <= digits_value(d),
    decreases d.len(),
{
    if d.len() > 0 {
        lemma_digits_nonnegative(d.drop_last());
    }
}

/// The digits in `[a, b)` and their value, if they are digits and the value
/// is at most `cap`.
pub(crate) fn digits_in(s: &Vec<char>, a: usize, b: usize, cap: u128) -> (r: Option<u128>)
    requires
        a <= b <= s@.len(),
        cap <= u64::MAX as u128 + 1,
    ensures
        match r {
            Some(v) => is_digits(s@.subrange(a as int, b as int)) && v == digits_value(
                s@.subrange(a as int, b as int),
            ) && v <= cap,
            None => !(is_digits(s@.subrange(a as int, b as int)) && digits_value(
                s@.subrange(a as int, b as int),
            ) <= cap),
        },
{
    let ghost d = s@.subrange(a as int, b as int);
    if a == b {
        return None;
    }
    let mut value: u128 = 0;
    let mut k = a;
    while k < b
        invariant
            a <= k <= b <= s@.len(),
            d == s@.subrange(a as int, b as int),
            cap <= u64::MAX as u128 + 1,
            value <= cap,
            forall|q: int| 0 <= q < k - a ==> '0' <= #[trigger] d[q] <= '9',
            value == digits_value(d.take(k - a)),
        decreases b - k,
    {
        let c = s[k];
        if c < '0' || c > '9' {
            assert(d[k - a] == c);
            return None;
        }
        let next = value * 10 + (c as u128 - 48);
        proof {
            assert(d.take(k - a + 1).drop_last() =~= d.take(k - a));
            assert(d.take(k - a + 1).last() == c);
        }
        if next > cap {
            proof {
                assert forall|q: int| 0 <= q < k - a + 1 implies '0' <= #[trigger] d[q] <= '9' by {
                    if q == k - a {
                        assert(d[q] == c);
                    }
                }
                if is_digits(d) {
                    lemma_digits_grow(d, k - a + 1);
                }
            }
            return None;
        }
        value = next;
        k = k + 1;
    }
    assert(d.take(b - a) =~= d);
    Some(value)
}

/// The integer in `[a, b)` between `low` and `high`.
pub(crate) fn integer_in(s: &Vec<char>, a: usize, b: usize, low: i128, high: i128) -> (r: Option<i128>)
    requires
        a <= b <= s@.len(),
        -0x8000_0000_0000_0000 <= low <= 0 <= high <= u64::MAX,
    ensures
        match parse_integer(s@.subrange(a as int, b as int), low as int, high as int) {
            Some(v) => r matches Some(x) && x == v && low <= x <= high,
            None => r is None,
        },
{
    let ghost t = s@.subrange(a as int, b as int);
    if low < 0 && a < b && s[a] == '-' {
        assert(t.skip(1) =~= s@.subrange(a + 1, b as int));
        match digits_in(s, a + 1, b, (-low) as u128) {
            Some(v) => Some(-(v as i128)),
            None => None,
        }
    } else if a < b && s[a] == '+' {
        assert(t.skip(1) =~= s@.subrange(a + 1, b as int));
        match digits_in(s, a + 1, b, high as u128) {
            Some(v) => Some(v as i128),
            None => None,
        }
    } else {
        match digits_in(s, a, b, high as u128) {
            Some(v) => Some(v as i128),
            None => None,
        }
    }
}


// ---------------------------------------------------------------------------
// Reading `key = value` lines.

/// End of the line that starts at `i`: the next line feed, or `end`.
pub open spec fn line_end(s: Seq<char>, i: int, end: int) -> int {
    next_char(s, '\n', i, end)
}

/// The line `[i, e)` assigns to `key`: it holds an `=`, and before the
/// first one stands the key, white space aside.
pub open spec fn assigns(s: Seq<char>, key: Seq<char>, i: int, e: int) -> bool {
    let q = next_char(s, '=', i, e);
    q < e && trimmed(s, i, q) == key
}

/// `[a, b)` with white space, then double quotes, taken off both ends.
pub open spec fn quoted_range(s: Seq<char>, a: int, b: int) -> (int, int) {
    let ta = trim_start(s, a, b);
    let tb = trim_end(s, a, b);
    let qa = skip_while(s, char_test('"'), ta, tb);
    (qa, back_while(s, char_test('"'), qa, tb))
}

/// Where the value of the first line in `[i, end)` that assigns to `key`
/// stands, its white space and quotes taken off.
pub open spec fn text_from(s: Seq<char>, key: Seq<char>, i: int, end: int) -> Option<(int, int)>
    decreases end - i,
{
    if i >= end {
        None
    } else {
        let e = line_end(s, i, end);
        proof {
            lemma_next_char_bounds(s, '\n', i, end);
        }
        if assigns(s, key, i, e) {
            Some(quoted_range(s, next_char(s, '=', i, e) + 1, e))
        } else if e < end {
            text_from(s, key, e + 1, end)
        } else {
            None
        }
    }
}

/// Where the value of the first line in `[i, end)` that assigns to `key`
/// stands, its white space taken off.
pub open spec fn raw_from(s: Seq<char>, key: Seq<char>, i: int, end: int) -> Option<(int, int)>
    decreases end - i,
{
    if i >= end {
        None
    } else {
        let e = line_end(s, i, end);
        let q = next_char(s, '=', i, e);
        proof {
            lemma_next_char_bounds(s, '\n', i, end);
        }
        if assigns(s, key, i, e) {
            Some((trim_start(s, q + 1, e), trim_end(s, q + 1, e)))
        } else if e < end {
            raw_from(s, key, e + 1, end)
        } else {
            None
        }
    }
}

/// The number that the first line in `[i, end)` assigning to `key` a
/// number between `low` and `high` assigns.
pub open spec fn number_from(s: Seq<char>, key: Seq<char>, i: int, end: int, low: int, high: int) -> Option<
    int,
>
    decreases end - i,
{
    if i >= end {
        None
    } else {
        let e = line_end(s, i, end);
        let q = next_char(s, '=', i, e);
        proof {
            lemma_next_char_bounds(s, '\n', i, end);
        }
        if assigns(s, key, i, e) && parse_integer(trimmed(s, q + 1, e), low, high) is Some {
            parse_integer(trimmed(s, q + 1, e), low, high)
        } else if e < end {
            number_from(s, key, e + 1, end, low, high)
        } else {
            None
        }
    }
}

/// A parsed integer lies between its bounds.
pub(crate) proof fn lemma_parse_range(t: Seq<char>, low: int, high: int)
    requires
        low <= 0 <= high,
    ensures
        parse_integer(t, low, high) matches Some(v) ==> low <= v <= high,
{
    if low < 0 && t.len() > 0 && t[0] == '-' {
        if is_digits(t.skip(1)) {
            lemma_digits_nonnegative(t.skip(1));
        }
    } else {
        let d = if t.len() > 0 && t[0] == '+' {
            t.skip(1)
        } else {
            t
        };
        if is_digits(d) {
            lemma_digits_nonnegative(d);
        }
    }
}

/// A number read from a line lies between its bounds.
pub(crate) proof fn lemma_number_from_range(s: Seq<char>, key: Seq<char>, i: int, end: int, low: int, high: int)
    requires
        low <= 0 <= high,
    ensures
        number_from(s, key, i, end, low, high) matches Some(v) ==> low <= v <= high,
    decreases end - i,
{
    if i < end {
        let e = line_end(s, i, end);
        let q = next_char(s, '=', i, e);
        lemma_next_char_bounds(s, '\n', i, end);
        lemma_parse_range(trimmed(s, q + 1, e), low, high);
        if !(assigns(s, key, i, e) && parse_integer(trimmed(s, q + 1, e), low, high) is Some) && e < end {
            lemma_number_from_range(s, key, e + 1, end, low, high);
        }
    }
}

pub(crate) fn quoted(s: &Vec<char>, a: usize, b: usize) -> (r: (usize, usize))
    requires
        a <= b <= s@.len(),
    ensures
        r.0 == quoted_range(s@, a as int, b as int).0,
        r.1 == quoted_range(s@, a as int, b as int).1,
        a <= r.0 <= r.1 <= b,
{
    let ta = skip_white(s, a, b);
    let tb = back_white(s, ta, b);
    let qa = skip_char(s, '"', ta, tb);
    let qb = back_char(s, '"', qa, tb);
    (qa, qb)
}

pub(crate) fn key_matches(s: &Vec<char>, key: &Vec<char>, i: usize, q: usize) -> (r: bool)
    requires
        i <= q <= s@.len(),
    ensures
        r == (trimmed(s@, i as int, q as int) == key@),
{
    let ta = skip_white(s, i, q);
    let tb = back_white(s, ta, q);
    range_equals(s, ta, tb, key)
}

/// Where the value of the first line of `[a, b)` assigning to `key` stands.
pub(crate) fn text_value(s: &Vec<char>, key: &Vec<char>, a: usize, b: usize) -> (r: Option<(usize, usize)>)
    requires
        a <= b <= s@.len(),
    ensures
        match text_from(s@, key@, a as int, b as int) {
            Some(found) => r matches Some(range) && range.0 == found.0 && range.1 == found.1
                && a <= range.0 <= range.1 <= b,
            None => r is None,
        },
{
    let mut i = a;
    while i < b
        invariant
            a <= i <= b <= s@.len(),
            text_from(s@, key@, i as int, b as int) == text_from(s@, key@, a as int, b as int),
        decreases b - i,
    {
        let e = find_char(s, '\n', i, b);
        let q = find_char(s, '=', i, e);
        if q < e && key_matches(s, key, i, q) {
            return Some(quoted(s, q + 1, e));
        }
        if e < b {
            i = e + 1;
        } else {
            i = b;
        }
    }
    None
}

/// Where the value of the first line of `[a, b)` assigning to `key` stands,
/// white space taken off.
pub(crate) fn raw_value(s: &Vec<char>, key: &Vec<char>, a: usize, b: usize) -> (r: Option<(usize, usize)>)
    requires
        a <= b <= s@.len(),
    ensures
        match raw_from(s@, key@, a as int, b as int) {
            Some(found) => r matches Some(range) && range.0 == found.0 && range.1 == found.1
                && a <= range.0 <= range.1 <= b,
            None => r is None,
        },
{
    let mut i = a;
    while i < b
        invariant
            a <= i <= b <= s@.len(),
            raw_from(s@, key@, i as int, b as int) == raw_from(s@, key@, a as int, b as int),
        decreases b - i,
    {
        let e = find_char(s, '\n', i, b);
        let q = find_char(s, '=', i, e);
        if q < e && key_matches(s, key, i, q) {
            let ta = skip_white(s, q + 1, e);
            let tb = back_white(s, ta, e);
            return Some((ta, tb));
        }
        if e < b {
            i = e + 1;
        } else {
            i = b;
        }
    }
    None
}

/// The number assigned to `key` by the first line of `[a, b)` that assigns
/// it a number between `low` and `high`.
pub(crate) fn number_value(s: &Vec<char>, key: &Vec<char>, a: usize, b: usize, low: i128, high: i128) -> (r:
    Option<i128>)
    requires
        a <= b <= s@.len(),
        -0x8000_0000_0000_0000 <= low <= 0 <= high <= u64::MAX,
    ensures
        match number_from(s@, key@, a as int, b as int, low as int, high as int) {
            Some(v) => r matches Some(x) && x == v && low <= x <= high,
            None => r is None,
        },
{
    let mut i = a;
    while i < b
        invariant
            a <= i <= b <= s@.len(),
            -0x8000_0000_0000_0000 <= low <= 0 <= high <= u64::MAX,
            number_from(s@, key@, i as int, b as int, low as int, high as int) == number_from(
                s@,
                key@,
                a as int,
                b as int,
                low as int,
                high as int,
            ),
        decreases b - i,
    {
        let e = find_char(s, '\n', i, b);
        let q = find_char(s, '=', i, e);
        if q < e && key_matches(s, key, i, q) {
            let ta = skip_white(s, q + 1, e);
            let tb = back_white(s, ta, e);
            match integer_in(s, ta, tb, low, high) {
                Some(v) => {
                    return Some(v);
                },
                None => {},
            }
        }
        if e < b {
            i = e + 1;
        } else {
            i = b;
        }
    }
    None
}




pub(crate) fn text_in(source: &str, s: &Vec<char>, a: usize, b: usize) -> (r: String)
    requires
        s@ == source@,
        a <= b <= s@.len(),
    ensures
        r@ == s@.subrange(a as int, b as int),
{
    String::from_str(source.substring_char(a, b))
}


// ---------------------------------------------------------------------------
// Tables under a header.

/// `pattern` stands at position `k` of `s`.
pub open spec fn pattern_at(s: Seq<char>, pattern: Seq<char>, k: int) -> bool {
    0 <= k && k + pattern.len() <= s.len() && s.subrange(k, k + pattern.len()) == pattern
}

/// The first position at or after `i` where `pattern` stands, or the
/// length of `s`.
pub open spec fn next_pattern(s: Seq<char>, pattern: Seq<char>, i: int) -> int
    decreases s.len() - i,
{
    if i < 0 || i >= s.len() || i + pattern.len() > s.len() {
        s.len() as int
    } else if pattern_at(s, pattern, i) {
        i
    } else {
        next_pattern(s, pattern, i + 1)
    }
}

/// The search for a pattern ends at or after where it starts.
pub proof fn lemma_next_pattern(s: Seq<char>, pattern: Seq<char>, i: int)
    requires
        0 <= i <= s.len(),
    ensures
        i <= next_pattern(s, pattern, i) <= s.len(),
        next_pattern(s, pattern, i) < s.len() ==> pattern_at(s, pattern, next_pattern(s, pattern, i)),
    decreases s.len() - i,
{
    if i < s.len() && i + pattern.len() <= s.len() && !pattern_at(s, pattern, i) {
        lemma_next_pattern(s, pattern, i + 1);
    }
}

/// The tables that follow position `i`, a position just after a header:
/// each runs up to the next header or the end of `s`.
pub open spec fn tables_after(s: Seq<char>, header: Seq<char>, i: int) -> Seq<(int, int)>
    decreases s.len() - i,
{
    if header.len() == 0 || i < 0 || i > s.len() {
        Seq::empty()
    } else {
        let m = next_pattern(s, header, i);
        proof {
            lemma_next_pattern(s, header, i);
        }
        if m < s.len() {
            seq![(i, m)] + tables_after(s, header, m + header.len())
        } else {
            seq![(i, s.len() as int)]
        }
    }
}

pub(crate) fn find_pattern(s: &Vec<char>, pattern: &Vec<char>, i: usize) -> (r: usize)
    requires
        i <= s@.len(),
    ensures
        r == next_pattern(s@, pattern@, i as int),
        i <= r <= s@.len(),
{
    let n = s.len();
    let p = pattern.len();
    let mut k = i;
    proof {
        lemma_next_pattern(s@, pattern@, i as int);
    }
    while k < n && p <= n - k && !range_equals(s, k, k + p, pattern)
        invariant
            i <= k <= n,
            n == s@.len(),
            p == pattern@.len(),
            next_pattern(s@, pattern@, k as int) == next_pattern(s@, pattern@, i as int),
        decreases n - k,
    {
        k = k + 1;
    }
    if k >= n || p > n - k {
        n
    } else {
        k
    }
}

/// The first position `k` in `[i, end)` where `pattern` stands wholly before
/// `end`, or `end`.
pub open spec fn pattern_before(s: Seq<char>, pattern: Seq<char>, i: int, end: int) -> int
    decreases end - i,
{
    if i < 0 || i >= end || i + pattern.len() > end {
        end
    } else if pattern_at(s, pattern, i) {
        i
    } else {
        pattern_before(s, pattern, i + 1, end)
    }
}

pub proof fn lemma_pattern_before(s: Seq<char>, pattern: Seq<char>, i: int, end: int)
    requires
        0 <= i <= end <= s.len(),
    ensures
        i <= pattern_before(s, pattern, i, end) <= end,
    decreases end - i,
{
    if i < end && i + pattern.len() <= end && !pattern_at(s, pattern, i) {
        lemma_pattern_before(s, pattern, i + 1, end);
    }
}

pub(crate) fn find_pattern_before(s: &Vec<char>, pattern: &Vec<char>, i: usize, end: usize) -> (r: usize)
    requires
        i <= end <= s@.len(),
    ensures
        r == pattern_before(s@, pattern@, i as int, end as int),
        i <= r <= end,
{
    let p = pattern.len();
    let mut k = i;
    proof {
        lemma_pattern_before(s@, pattern@, i as int, end as int);
    }
    while k < end && p <= end - k && !range_equals(s, k, k + p, pattern)
        invariant
            i <= k <= end <= s@.len(),
            p == pattern@.len(),
            pattern_before(s@, pattern@, k as int, end as int) == pattern_before(
                s@,
                pattern@,
                i as int,
                end as int,
            ),
        decreases end - k,
    {
        k = k + 1;
    }
    if k >= end || p > end - k {
        end
    } else {
        k
    }
}

/// The tables under each `header` in `s`: each from after its header up to
/// the next header or the end of `s`.
pub open spec fn header_tables(s: Seq<char>, header: Seq<char>) -> Seq<(int, int)> {
    let m = next_pattern(s, header, 0);
    if m < s.len() {
        tables_after(s, header, m + header.len())
    } else {
        Seq::empty()
    }
}

/// A table cut at its first line that opens another table: the first line
/// feed followed by `[`.
pub open spec fn cut_table(s: Seq<char>, table: (int, int)) -> (int, int) {
    (table.0, pattern_before(s, "\n["@, table.0, table.1))
}


// ---------------------------------------------------------------------------
// Lists of words.

/// Each range is ordered and ends within a text of length `n`.
pub open spec fn ranges_within(ranges: Seq<(usize, usize)>, n: int) -> bool {
    forall|k: int| 0 <= k < ranges.len() ==> (#[trigger] ranges[k]).0 <= ranges[k].1 <= n
}

/// The items of `[i, end)` between commas, white space and quotes taken
/// off, that are not empty, in order.
pub open spec fn words_from(s: Seq<char>, i: int, end: int) -> Seq<Seq<char>>
    decreases end + 1 - i,
{
    if i > end {
        Seq::empty()
    } else {
        let e = next_char(s, ',', i, end);
        proof {
            lemma_next_char_bounds(s, ',', i, end);
        }
        let rest = if e < end {
            words_from(s, e + 1, end)
        } else {
            Seq::empty()
        };
        let w = quoted_range(s, i, e);
        if w.0 < w.1 {
            seq![s.subrange(w.0, w.1)] + rest
        } else {
            rest
        }
    }
}

/// `[x, y)` with the opening brackets taken off its front and the closing
/// brackets off its back.
pub open spec fn bracket_range(s: Seq<char>, x: int, y: int) -> (int, int) {
    let l = skip_while(s, char_test('['), x, y);
    (l, back_while(s, char_test(']'), l, y))
}

/// The texts that the ranges pick out of `s`.
pub open spec fn range_texts(s: Seq<char>, ranges: Seq<(usize, usize)>) -> Seq<Seq<char>> {
    ranges.map_values(|r: (usize, usize)| s.subrange(r.0 as int, r.1 as int))
}

pub(crate) fn word_list(s: &Vec<char>, a: usize, b: usize) -> (r: Vec<(usize, usize)>)
    requires
        a <= b <= s@.len(),
    ensures
        range_texts(s@, r@) == words_from(s@, a as int, b as int),
        ranges_within(r@, s@.len() as int),
{
    let mut out: Vec<(usize, usize)> = Vec::new();
    let mut i = a;
    let mut done = false;
    while !done
        invariant
            a <= i <= b <= s@.len(),
            !done ==> range_texts(s@, out@) + words_from(s@, i as int, b as int) == words_from(
                s@,
                a as int,
                b as int,
            ),
            done ==> range_texts(s@, out@) == words_from(s@, a as int, b as int),
            ranges_within(out@, s@.len() as int),
        decreases (if done {
            0int
        } else {
            b + 2 - i
        }),
    {
        let e = find_char(s, ',', i, b);
        let w = quoted(s, i, e);
        let ghost before = out@;
        if w.0 < w.1 {
            out.push(w);
            assert(out@[out@.len() - 1] == w);
            assert(w.0 <= w.1 <= s@.len());
            assert(range_texts(s@, out@) =~= range_texts(s@, before) + seq![
                s@.subrange(w.0 as int, w.1 as int),
            ]);
        }
        proof {
            if e < b {
                assert(range_texts(s@, before) + words_from(s@, i as int, b as int) =~= range_texts(
                    s@,
                    out@,
                ) + words_from(s@, e + 1, b as int));
            } else {
                assert(range_texts(s@, out@) =~= range_texts(s@, before) + words_from(
                    s@,
                    i as int,
                    b as int,
                ));
            }
        }
        if e < b {
            i = e + 1;
        } else {
            done = true;
        }
    }
    out
}

/// One of the words is `name`.
pub(crate) fn has_word(s: &Vec<char>, words: &Vec<(usize, usize)>, name: &Vec<char>) -> (r: bool)
    requires
        ranges_within(words@, s@.len() as int),
    ensures
        r == range_texts(s@, words@).contains(name@),
{
    let mut k: usize = 0;
    while k < words.len()
        invariant
            k <= words@.len(),
            ranges_within(words@, s@.len() as int),
            forall|q: int| 0 <= q < k ==> #[trigger] range_texts(s@, words@)[q] != name@,
        decreases words@.len() - k,
    {
        let (x, y) = words[k];
        if range_equals(s, x, y, name) {
            assert(range_texts(s@, words@)[k as int] == name@);
            return true;
        }
        k = k + 1;
    }
    false
}

} // verus!
