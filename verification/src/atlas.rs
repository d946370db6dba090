//! Visibility of the universe atlas.

use vstd::prelude::*;
use crate::text::{decimal, decimal_spec};

verus! {

#[derive(Clone, Copy, Debug, PartialEq, Eq, Structural)]
pub enum AtlasVisibility {
    UniversallyKnown,
    Omniscient,
}

pub open spec fn visibility_text(visibility: AtlasVisibility) -> Seq<char> {
    match visibility {
        AtlasVisibility::UniversallyKnown => "universally-known"@,
        AtlasVisibility::Omniscient => "omniscient"@,
    }
}

impl AtlasVisibility {
    pub fn as_str(self) -> (r: &'static str)
        ensures
            r@ == visibility_text(self),
    {
        match self {
            Self::UniversallyKnown => "universally-known",
            Self::Omniscient => "omniscient",
        }
    }
}

// ---------------------------------------------------------------------------
// JSON text.

pub open spec fn hex_digit(v: int) -> char {
    "0123456789abcdef"@[v]
}

/// A character as it stands inside a JSON string: quotes, backslashes and
/// the short control escapes by name, other control characters as `\u00XX`
/// in lower-case hexadecimal, the rest as themselves.
pub open spec fn json_escape(c: char) -> Seq<char> {
    if c == '"' {
        "\\\""@
    } else if c == '\\' {
        "\\\\"@
    } else if c == '\u{08}' {
        "\\b"@
    } else if c == '\u{0c}' {
        "\\f"@
    } else if c == '\n' {
        "\\n"@
    } else if c == '\r' {
        "\\r"@
    } else if c == '\t' {
        "\\t"@
    } else if (c as u32) < 0x20 {
        "\\u00"@ + seq![hex_digit(((c as u32) / 16) as int), hex_digit(((c as u32) % 16) as int)]
    } else {
        seq![c]
    }
}

/// The first `n` characters of a text, escaped.
pub open spec fn json_escaped(s: Seq<char>, n: int) -> Seq<char>
    decreases n,
{
    if n <= 0 {
        seq![]
    } else {
        json_escaped(s, n - 1) + json_escape(s[n - 1])
    }
}

/// A text as a JSON string: quoted and escaped.
pub open spec fn json_string_spec(s: Seq<char>) -> Seq<char> {
    seq!['"'] + json_escaped(s, s.len() as int) + seq!['"']
}

pub fn json_string(value: &str) -> (r: String)
    ensures
        r@ == json_string_spec(value@),
{
    proof {
        reveal_strlit("\"");
        reveal_strlit("0123456789abcdef");
        reveal_strlit("\\u00");
    }
    let digits = "0123456789abcdef";
    let n = value.unicode_len();
    let mut out = String::from_str("\"");
    let mut i: usize = 0;
    while i < n
        invariant
            i <= n,
            n == value@.len(),
            digits@ == "0123456789abcdef"@,
            digits@.len() == 16,
            out@ == seq!['"'] + json_escaped(value@, i as int),
        decreases n - i,
    {
        let c = value.get_char(i);
        if c == '"' {
            out.append("\\\"");
        } else if c == '\\' {
            out.append("\\\\");
        } else if c == '\u{08}' {
            out.append("\\b");
        } else if c == '\u{0c}' {
            out.append("\\f");
        } else if c == '\n' {
            out.append("\\n");
        } else if c == '\r' {
            out.append("\\r");
        } else if c == '\t' {
            out.append("\\t");
        } else if (c as u32) < 0x20 {
            let code = c as u32;
            let high = (code / 16) as usize;
            let low = (code % 16) as usize;
            out.append("\\u00");
            out.append(digits.substring_char(high, high + 1));
            out.append(digits.substring_char(low, low + 1));
            proof {
                assert(digits@.subrange(high as int, high + 1) =~= seq![hex_digit(high as int)]);
                assert(digits@.subrange(low as int, low + 1) =~= seq![hex_digit(low as int)]);
            }
        } else {
            out.append(value.substring_char(i, i + 1));
            proof {
                assert(value@.subrange(i as int, i + 1) =~= seq![c]);
            }
        }
        proof {
            assert(out@ =~= seq!['"'] + json_escaped(value@, i + 1));
        }
        i = i + 1;
    }
    out.append("\"");
    out
}

/// An optional number as JSON: its decimal digits, or `null`.
pub fn json_option_number(value: Option<u8>) -> (r: String)
    ensures
        r@ == match value {
            Some(v) => decimal_spec(v as nat),
            None => "null"@,
        },
{
    match value {
        Some(v) => decimal(v as u64),
        None => String::from_str("null"),
    }
}

/// An optional text as JSON: the quoted, escaped string, or `null`.
pub fn json_option_string(value: Option<&str>) -> (r: String)
    ensures
        r@ == match value {
            Some(v) => json_string_spec(v@),
            None => "null"@,
        },
{
    match value {
        Some(v) => json_string(v),
        None => String::from_str("null"),
    }
}

} // verus!
