//! Decimal rendering of numbers in messages.

use vstd::prelude::*;
use vstd::string::StringSliceAdditionalSpecFns;

verus! {

pub open spec fn digit_char(d: int) -> char {
    ((48 + d) as u32) as char
}

/// The decimal digits of a number, most significant first.
pub open spec fn decimal_spec(n: nat) -> Seq<char>
    decreases n,
{
    if n < 10 {
        seq![digit_char(n as int)]
    } else {
        decimal_spec(n / 10).push(digit_char((n % 10) as int))
    }
}

fn digit_text(d: u64) -> (r: &'static str)
    requires
        d < 10,
    ensures
        r@ == seq![digit_char(d as int)],
{
    if d == 0 {
        proof {
            reveal_strlit("0");
        }
        "0"
    } else if d == 1 {
        proof {
            reveal_strlit("1");
        }
        "1"
    } else if d == 2 {
        proof {
            reveal_strlit("2");
        }
        "2"
    } else if d == 3 {
        proof {
            reveal_strlit("3");
        }
        "3"
    } else if d == 4 {
        proof {
            reveal_strlit("4");
        }
        "4"
    } else if d == 5 {
        proof {
            reveal_strlit("5");
        }
        "5"
    } else if d == 6 {
        proof {
            reveal_strlit("6");
        }
        "6"
    } else if d == 7 {
        proof {
            reveal_strlit("7");
        }
        "7"
    } else if d == 8 {
        proof {
            reveal_strlit("8");
        }
        "8"
    } else {
        proof {
            reveal_strlit("9");
        }
        "9"
    }
}

/// The decimal text of a number.
pub fn decimal(n: u64) -> (r: String)
    ensures
        r@ == decimal_spec(n as nat),
    decreases n,
{
    if n < 10 {
        String::from_str(digit_text(n))
    } else {
        let head = decimal(n / 10);
        head.concat(digit_text(n % 10))
    }
}

/// The decimal text of a signed number, with a leading minus when it is
/// negative.
pub open spec fn signed_decimal_spec(x: int) -> Seq<char> {
    if x < 0 {
        seq!['-'] + decimal_spec((-x) as nat)
    } else {
        decimal_spec(x as nat)
    }
}

pub fn signed_decimal(x: i64) -> (r: String)
    requires
        x > i64::MIN,
    ensures
        r@ == signed_decimal_spec(x as int),
{
    if x < 0 {
        proof {
            reveal_strlit("-");
        }
        let digits = decimal((-x) as u64);
        String::from_str("-").concat(digits.as_str())
    } else {
        decimal(x as u64)
    }
}

/// `prefix`, then the decimal text of a number, then `suffix`.
pub fn with_number(prefix: &str, n: u64, suffix: &str) -> (r: String)
    ensures
        r@ == prefix@ + decimal_spec(n as nat) + suffix@,
{
    let start = String::from_str(prefix);
    let number = decimal(n);
    let middle = start.concat(number.as_str());
    middle.concat(suffix)
}

fn bytes_equal(a: &[u8], b: &[u8]) -> (r: bool)
    ensures
        r == (a@ == b@),
{
    if a.len() != b.len() {
        return false;
    }
    let mut i: usize = 0;
    while i < a.len()
        invariant
            i <= a@.len(),
            a@.len() == b@.len(),
            forall|j: int| 0 <= j < i ==> a@[j] == b@[j],
        decreases a@.len() - i,
    {
        if a[i] != b[i] {
            return false;
        }
        i = i + 1;
    }
    assert(a@ =~= b@);
    true
}

/// Whether two texts are the same.
pub fn text_equals(a: &str, b: &str) -> (r: bool)
    ensures
        r == (a@ == b@),
{
    let equal = bytes_equal(a.as_bytes(), b.as_bytes());
    proof {
        vstd::utf8::encode_utf8_decode_utf8(a@);
        vstd::utf8::encode_utf8_decode_utf8(b@);
        assert(a.spec_bytes() == vstd::utf8::encode_utf8(a@));
        assert(b.spec_bytes() == vstd::utf8::encode_utf8(b@));
    }
    equal
}


/// Unicode White_Space, as Rust's `char::is_whitespace` reads it.
pub open spec fn is_white(c: char) -> bool {
    let u = c as u32;
    (0x09 <= u && u <= 0x0d) || u == 0x20 || u == 0x85 || u == 0xa0 || u == 0x1680 || (0x2000 <= u
        && u <= 0x200a) || u == 0x2028 || u == 0x2029 || u == 0x202f || u == 0x205f || u == 0x3000
}

pub fn white(c: char) -> (r: bool)
    ensures
        r == is_white(c),
{
    let u = c as u32;
    (0x09 <= u && u <= 0x0d) || u == 0x20 || u == 0x85 || u == 0xa0 || u == 0x1680 || (0x2000 <= u
        && u <= 0x200a) || u == 0x2028 || u == 0x2029 || u == 0x202f || u == 0x205f || u == 0x3000
}

/// `s` with each occurrence of `pattern` replaced by `with`, the
/// occurrences found from the left without overlapping, as
/// `str::replace` does for a pattern that is not empty.
pub open spec fn replace_all(s: Seq<char>, pattern: Seq<char>, with: Seq<char>) -> Seq<char>
    decreases s.len(),
{
    if pattern.len() == 0 || s.len() < pattern.len() {
        s
    } else if s.take(pattern.len() as int) == pattern {
        with + replace_all(s.skip(pattern.len() as int), pattern, with)
    } else {
        seq![s[0]] + replace_all(s.skip(1), pattern, with)
    }
}

proof fn lemma_replace_short(s: Seq<char>, pattern: Seq<char>, with: Seq<char>)
    requires
        s.len() < pattern.len(),
    ensures
        replace_all(s, pattern, with) == s,
{
}

pub fn replace_text(s: &str, pattern: &str, with: &str) -> (r: String)
    requires
        pattern@.len() > 0,
    ensures
        r@ == replace_all(s@, pattern@, with@),
{
    let n = s.unicode_len();
    let m = pattern.unicode_len();
    let mut out = String::new();
    let mut i: usize = 0;
    assert(s@.skip(0) =~= s@);
    while i < n
        invariant
            i <= n,
            n == s@.len(),
            m == pattern@.len(),
            m > 0,
            out@ + replace_all(s@.skip(i as int), pattern@, with@) == replace_all(s@, pattern@, with@),
        decreases n - i,
    {
        let ghost rest = s@.skip(i as int);
        let mut k: usize = 0;
        if n - i >= m {
            while k < m && s.get_char(i + k) == pattern.get_char(k)
                invariant
                    k <= m,
                    i + m <= n,
                    n == s@.len(),
                    m == pattern@.len(),
                    rest == s@.skip(i as int),
                    forall|q: int| 0 <= q < k ==> #[trigger] rest[q] == pattern@[q],
                decreases m - k,
            {
                k = k + 1;
            }
        }
        if n - i >= m && k == m {
            assert(rest.take(m as int) =~= pattern@);
            assert(rest.skip(m as int) =~= s@.skip((i + m) as int));
            out.append(with);
            i = i + m;
        } else {
            let one = s.substring_char(i, i + 1);
            assert(rest.skip(1) =~= s@.skip((i + 1) as int));
            if n - i >= m {
                assert(rest.take(m as int)[k as int] != pattern@[k as int]);
                assert(rest.take(m as int) != pattern@);
            } else {
                proof {
                    lemma_replace_short(rest, pattern@, with@);
                    lemma_replace_short(rest.skip(1), pattern@, with@);
                    assert(rest =~= seq![rest[0]] + rest.skip(1));
                }
            }
            assert(one@ =~= seq![rest[0]]);
            out.append(one);
            i = i + 1;
        }
    }
    assert(s@.skip(n as int) =~= Seq::<char>::empty());
    out
}

/// The words of `s`, its runs of characters other than white space,
/// joined by single spaces: from the state of having `started` a word and
/// owing a `pending` space before the next one.
pub open spec fn squeeze_from(s: Seq<char>, started: bool, pending: bool) -> Seq<char>
    decreases s.len(),
{
    if s.len() == 0 {
        Seq::empty()
    } else if is_white(s[0]) {
        squeeze_from(s.skip(1), started, started)
    } else {
        (if pending {
            seq![' ']
        } else {
            Seq::empty()
        }) + seq![s[0]] + squeeze_from(s.skip(1), true, false)
    }
}

/// The words of `s` joined by single spaces, as
/// `split_whitespace().collect::<Vec<_>>().join(" ")` gives them.
pub open spec fn squeeze_spaces(s: Seq<char>) -> Seq<char> {
    squeeze_from(s, false, false)
}

pub fn squeeze_text(s: &str) -> (r: String)
    ensures
        r@ == squeeze_spaces(s@),
{
    let n = s.unicode_len();
    let mut out = String::new();
    let mut started = false;
    let mut pending = false;
    let mut i: usize = 0;
    proof {
        reveal_strlit(" ");
    }
    assert(s@.skip(0) =~= s@);
    while i < n
        invariant
            i <= n,
            n == s@.len(),
            " "@ == seq![' '],
            out@ + squeeze_from(s@.skip(i as int), started, pending) == squeeze_spaces(s@),
        decreases n - i,
    {
        let ghost rest = s@.skip(i as int);
        assert(rest.skip(1) =~= s@.skip((i + 1) as int));
        let c = s.get_char(i);
        if white(c) {
            pending = started;
        } else {
            if pending {
                out.append(" ");
            }
            let one = s.substring_char(i, i + 1);
            assert(one@ =~= seq![c]);
            out.append(one);
            pending = false;
            started = true;
        }
        i = i + 1;
    }
    assert(s@.skip(n as int) =~= Seq::<char>::empty());
    out
}

/// The character with ASCII letters 'A' to 'Z' mapped to 'a' to 'z'.
pub open spec fn ascii_lower_char(c: char) -> char {
    if 'A' <= c <= 'Z' {
        ((c as u32) + 32) as char
    } else {
        c
    }
}

/// The text with its ASCII letters in lower case, as
/// `str::to_ascii_lowercase` gives it.
pub open spec fn ascii_lowercase(s: Seq<char>) -> Seq<char> {
    s.map_values(|c: char| ascii_lower_char(c))
}

pub fn lowercase_ascii(s: &str) -> (r: String)
    ensures
        r@ == ascii_lowercase(s@),
{
    let letters = "abcdefghijklmnopqrstuvwxyz";
    proof {
        reveal_strlit("abcdefghijklmnopqrstuvwxyz");
        assert forall|k: int| 0 <= k < 26 implies (#[trigger] letters@[k]) as u32 == 97 + k by {
            if k == 0 {
            } else if k == 1 {
            } else if k == 2 {
            } else if k == 3 {
            } else if k == 4 {
            } else if k == 5 {
            } else if k == 6 {
            } else if k == 7 {
            } else if k == 8 {
            } else if k == 9 {
            } else if k == 10 {
            } else if k == 11 {
            } else if k == 12 {
            } else if k == 13 {
            } else if k == 14 {
            } else if k == 15 {
            } else if k == 16 {
            } else if k == 17 {
            } else if k == 18 {
            } else if k == 19 {
            } else if k == 20 {
            } else if k == 21 {
            } else if k == 22 {
            } else if k == 23 {
            } else if k == 24 {
            } else {
            }
        }
    }
    let n = s.unicode_len();
    let mut out = String::new();
    let mut i: usize = 0;
    while i < n
        invariant
            i <= n,
            n == s@.len(),
            letters@ == "abcdefghijklmnopqrstuvwxyz"@,
            letters@.len() == 26,
            forall|k: int| 0 <= k < 26 ==> (#[trigger] letters@[k]) as u32 == 97 + k,
            out@ == ascii_lowercase(s@.take(i as int)),
        decreases n - i,
    {
        let c = s.get_char(i);
        if 'A' <= c && c <= 'Z' {
            let k = (c as u32 - 65) as usize;
            let one = letters.substring_char(k, k + 1);
            assert(letters@[k as int] as u32 == c as u32 + 32);
            assert(ascii_lower_char(c) as u32 == c as u32 + 32);
            proof {
                let u = (c as u32 + 32) as u32;
                vstd::utf8::char_u32_cast(letters@[k as int], u);
            }
            assert(letters@[k as int] == ascii_lower_char(c));
            assert(one@ =~= seq![ascii_lower_char(c)]);
            out.append(one);
        } else {
            let one = s.substring_char(i, i + 1);
            assert(one@ =~= seq![ascii_lower_char(c)]);
            out.append(one);
        }
        assert(ascii_lowercase(s@.take((i + 1) as int)) =~= ascii_lowercase(s@.take(i as int)) + seq![ascii_lower_char(c)]);
        i = i + 1;
    }
    assert(s@.take(n as int) =~= s@);
    out
}

} // verus!
