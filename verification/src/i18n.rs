//! Connection language negotiation and server-side message formatting.

use vstd::prelude::*;
use vstd::string::StrSliceExecFns;
use vstd::string::StringSliceAdditionalSpecFns;
use language_tags::LanguageTag;

verus! {

pub const DEFAULT_LANGUAGE_TAG: &'static str = "en-US";

#[derive(Clone, Copy, Debug, PartialEq, Eq)]
pub struct DisplayFormatting {
    pub decimal_separator: &'static str,
    pub grouping_separator: &'static str,
    pub primary_grouping_digits: u8,
    pub secondary_grouping_digits: u8,
    pub game_timestamp_pattern: &'static str,
    pub game_duration_pattern: &'static str,
    pub real_duration_pattern: &'static str,
}

/// The English display conventions.
pub open spec fn english_display_formatting(f: DisplayFormatting) -> bool {
    &&& f.decimal_separator@ == "."@
    &&& f.grouping_separator@ == ","@
    &&& f.primary_grouping_digits == 3
    &&& f.secondary_grouping_digits == 3
    &&& f.game_timestamp_pattern@ == "Day {day}, {hour}:{minute}:{second}"@
    &&& f.game_duration_pattern@ == "{day} d {hour}:{minute}:{second}"@
    &&& f.real_duration_pattern@ == "{hour}:{minute}:{second}"@
}

#[derive(Clone, Debug, PartialEq, Eq)]
pub struct NegotiatedLanguage(String);

impl NegotiatedLanguage {
    /// The language tag, as negotiated.
    pub closed spec fn tag_text(self) -> Seq<char> {
        self.0@
    }

    pub fn tag(&self) -> (r: &str)
        ensures
            r@ == self.tag_text(),
    {
        self.0.as_str()
    }

    pub fn display_formatting(&self) -> (r: DisplayFormatting)
        ensures
            english_display_formatting(r),
    {
        DisplayFormatting {
            decimal_separator: ".",
            grouping_separator: ",",
            primary_grouping_digits: 3,
            secondary_grouping_digits: 3,
            game_timestamp_pattern: "Day {day}, {hour}:{minute}:{second}",
            game_duration_pattern: "{day} d {hour}:{minute}:{second}",
            real_duration_pattern: "{hour}:{minute}:{second}",
        }
    }
}

pub fn default_language() -> (r: NegotiatedLanguage)
    ensures
        r.tag_text() == "en-US"@,
{
    NegotiatedLanguage(String::from_str("en-US"))
}

#[derive(Clone, Copy, Debug, PartialEq, Eq, Structural)]
pub enum LanguageNegotiationError {
    Malformed,
    Unsupported,
}

#[derive(Clone, Debug, PartialEq, Eq)]
pub enum LocalizationError {
    Resource(String),
    MissingMessage(String),
    MissingValue(String),
    Format(String),
}

/// What `language_tags::LanguageTag::parse` makes of a tag: its canonical
/// serialization and its primary language subtag, or nothing where the tag
/// is malformed.
pub uninterp spec fn language_tag_of(requested: Seq<char>) -> Option<(Seq<char>, Seq<char>)>;

/// `language_tags::LanguageTag::parse`, then `into_string` and
/// `primary_language` of the parsed tag.  The parse is the crate's BCP 47
/// grammar and canonical casing; its outcome is named, not stated.
#[verifier::external_body]
fn parse_language_tag(requested: &str) -> (r: Option<(String, String)>)
    ensures
        match r {
            Some(parsed) => language_tag_of(requested@) == Some((parsed.0@, parsed.1@)),
            None => language_tag_of(requested@) is None,
        },
{
    match LanguageTag::parse(requested) {
        Ok(tag) => {
            let primary = tag.primary_language().to_owned();
            Some((tag.into_string(), primary))
        },
        Err(_) => None,
    }
}

/// The negotiated language for a parsed tag: English in any region, with
/// plain "en" meaning US English.
pub open spec fn negotiation_spec(parsed: Option<(Seq<char>, Seq<char>)>) -> Result<
    Seq<char>,
    LanguageNegotiationError,
> {
    match parsed {
        None => Err(LanguageNegotiationError::Malformed),
        Some((text, primary)) => if primary == "en"@ {
            if text == "en"@ {
                Ok("en-US"@)
            } else {
                Ok(text)
            }
        } else {
            Err(LanguageNegotiationError::Unsupported)
        },
    }
}

/// The outcome of negotiation for what the tag parser returned.
pub fn negotiation_outcome(parsed: Option<(String, String)>) -> (r: Result<
    NegotiatedLanguage,
    LanguageNegotiationError,
>)
    ensures
        ({
            let expected = negotiation_spec(
                match parsed {
                    Some(p) => Some((p.0@, p.1@)),
                    None => None,
                },
            );
            match r {
                Ok(language) => expected == Ok::<Seq<char>, LanguageNegotiationError>(language.tag_text()),
                Err(e) => expected == Err::<Seq<char>, LanguageNegotiationError>(e),
            }
        }),
{
    match parsed {
        None => Err(LanguageNegotiationError::Malformed),
        Some((text, primary)) => {
            let en = String::from_str("en");
            if primary == en {
                if text == en {
                    Ok(default_language())
                } else {
                    Ok(NegotiatedLanguage(text))
                }
            } else {
                Err(LanguageNegotiationError::Unsupported)
            }
        },
    }
}

pub fn negotiate_language(requested: &str) -> (r: Result<NegotiatedLanguage, LanguageNegotiationError>)
    ensures
        ({
            let expected = if requested@.len() == 0 || requested.len() > 128 {
                Err(LanguageNegotiationError::Malformed)
            } else {
                negotiation_spec(language_tag_of(requested@))
            };
            match r {
                Ok(language) => expected == Ok::<Seq<char>, LanguageNegotiationError>(language.tag_text()),
                Err(e) => expected == Err::<Seq<char>, LanguageNegotiationError>(e),
            }
        }),
{
    if requested.is_empty() || requested.len() > 128 {
        return Err(LanguageNegotiationError::Malformed);
    }
    let parsed = parse_language_tag(requested);
    proof {
        let viewed: Option<(Seq<char>, Seq<char>)> = if parsed is Some {
            let pair = parsed->Some_0;
            Some((pair.0@, pair.1@))
        } else {
            None
        };
        assert(viewed == language_tag_of(requested@));
    }
    negotiation_outcome(parsed)
}

// ---------------------------------------------------------------------------
// Digit grouping.

pub open spec fn is_digit(c: char) -> bool {
    '0' <= c && c <= '9'
}

pub open spec fn all_digits(s: Seq<char>) -> bool {
    forall|i: int| 0 <= i < s.len() ==> is_digit(#[trigger] s[i])
}

/// Digits grouped in threes from the right with commas.
pub open spec fn group_digits(digits: Seq<char>) -> Seq<char>
    decreases digits.len(),
{
    if digits.len() <= 3 {
        digits
    } else {
        group_digits(digits.take(digits.len() - 3)) + seq![','] + digits.skip(digits.len() - 3)
    }
}

/// Position of the first '.', 'e' or 'E', or the end.
pub open spec fn integer_end(s: Seq<char>) -> int {
    if exists|i: int| 0 <= i < s.len() && (s[i] == '.' || s[i] == 'e' || s[i] == 'E') {
        choose|i: int|
            0 <= i < s.len() && (s[i] == '.' || s[i] == 'e' || s[i] == 'E') && forall|j: int|
                0 <= j < i ==> !(#[trigger] s[j] == '.' || s[j] == 'e' || s[j] == 'E')
    } else {
        s.len() as int
    }
}

/// English grouping of a rendered number: the digits before the fraction
/// or exponent grouped in threes, when there are more than three of them
/// and they are all digits; anything else is left as it is.
pub open spec fn grouped_number(value: Seq<char>) -> Seq<char> {
    let negative = value.len() > 0 && value[0] == '-';
    let unsigned = if negative {
        value.drop_first()
    } else {
        value
    };
    let end = integer_end(unsigned);
    let integer = unsigned.take(end);
    if integer.len() <= 3 || !all_digits(integer) {
        value
    } else {
        (if negative {
            seq!['-']
        } else {
            seq![]
        }) + group_digits(integer) + unsigned.skip(end)
    }
}

fn group_all(digits: &str) -> (r: String)
    ensures
        r@ == group_digits(digits@),
    decreases digits@.len(),
{
    let n = digits.unicode_len();
    if n <= 3 {
        String::from_str(digits)
    } else {
        let head = group_all(digits.substring_char(0, n - 3));
        proof {
            reveal_strlit(",");
        }
        let with_comma = head.concat(",");
        let tail = digits.substring_char(n - 3, n);
        assert(digits@.take(n - 3) =~= digits@.subrange(0, n - 3));
        assert(digits@.skip(n - 3) =~= digits@.subrange(n - 3, n as int));
        with_comma.concat(tail)
    }
}

/// Groups the integer digits of a rendered number in threes with commas.
pub fn group_english_number(value: &str) -> (r: String)
    ensures
        r@ == grouped_number(value@),
{
    let n = value.unicode_len();
    let negative = n > 0 && value.get_char(0) == '-';
    let start: usize = if negative {
        1
    } else {
        0
    };
    let unsigned = value.substring_char(start, n);
    let ghost expected_unsigned = if negative {
        value@.drop_first()
    } else {
        value@
    };
    assert(unsigned@ =~= expected_unsigned);
    let m = unsigned.unicode_len();
    let mut end: usize = 0;
    while end < m && !(unsigned.get_char(end) == '.' || unsigned.get_char(end) == 'e'
        || unsigned.get_char(end) == 'E')
        invariant
            end <= m,
            m == unsigned@.len(),
            forall|j: int|
                0 <= j < end ==> !(#[trigger] unsigned@[j] == '.' || unsigned@[j] == 'e'
                    || unsigned@[j] == 'E'),
        decreases m - end,
    {
        end = end + 1;
    }
    assert(end == integer_end(unsigned@)) by {
        if end < m {
            let c = integer_end(unsigned@);
            assert(unsigned@[end as int] == '.' || unsigned@[end as int] == 'e' || unsigned@[end as int] == 'E');
            if c < end {
                assert(!(unsigned@[c] == '.' || unsigned@[c] == 'e' || unsigned@[c] == 'E'));
            } else if c > end {
                assert(!(unsigned@[end as int] == '.' || unsigned@[end as int] == 'e'
                    || unsigned@[end as int] == 'E'));
            }
        }
    }
    let integer = unsigned.substring_char(0, end);
    assert(integer@ =~= unsigned@.take(end as int));
    let mut digits_only = true;
    let mut k: usize = 0;
    while k < end
        invariant
            k <= end,
            end == integer@.len(),
            digits_only == forall|i: int| 0 <= i < k ==> is_digit(#[trigger] integer@[i]),
        decreases end - k,
    {
        let c = integer.get_char(k);
        if !('0' <= c && c <= '9') {
            digits_only = false;
        }
        k = k + 1;
    }
    assert(digits_only == all_digits(integer@));
    if end <= 3 || !digits_only {
        proof {
            let spec_integer = expected_unsigned.take(integer_end(expected_unsigned));
            assert(spec_integer == integer@);
        }
        return String::from_str(value);
    }
    let sign = value.substring_char(0, start);
    let grouped = group_all(integer);
    let rest = unsigned.substring_char(end, m);
    assert(rest@ =~= unsigned@.skip(end as int));
    let result = String::from_str(sign).concat(grouped.as_str()).concat(rest);
    proof {
        if negative {
            assert(sign@ =~= seq!['-']);
        } else {
            assert(sign@ =~= Seq::<char>::empty());
        }
    }
    result
}

} // verus!
