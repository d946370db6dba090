//! Versioned, catalog-backed place naming.
//!
//! A profile holds a pattern with the placeholders `{0}` to `{3}` and four
//! lists of parts.  A name draws one part for each placeholder from a seed
//! stream, fills the pattern in, and closes up its white space.

use vstd::prelude::*;
use crate::crypto::{derive_seed, derived_seed, stream_word, CryptoError, SeedStream};
use crate::text::{
    ascii_lowercase, lowercase_ascii, replace_all, replace_text, squeeze_spaces, squeeze_text,
    text_equals,
};

verus! {

pub const PLACE_NAMING_VERSION: u16 = 1;

pub const FEDERATION_NAMING_PROFILE_ID: u16 = 1;

/// Draws a unique name may take before it gives up.
pub const MAX_UNIQUE_NAME_DRAWS: usize = 4096;

/// The label, `place-naming/polity-profile/v1`, of the seed that picks a
/// polity's naming profile.
pub const POLITY_PROFILE_LABEL: [u8; 30] = [
    112, 108, 97, 99, 101, 45, 110, 97, 109, 105, 110, 103, 47, 112, 111, 108, 105, 116, 121, 45,
    112, 114, 111, 102, 105, 108, 101, 47, 118, 49,
];

pub struct PlaceNameProfile {
    pub id: u16,
    pub tag: String,
    pub system_pattern: String,
    pub world_pattern: String,
    pub system_parts: [Vec<String>; 4],
    pub world_parts: [Vec<String>; 4],
}

#[derive(Debug)]
pub enum PlaceNameError {
    Crypto(CryptoError),
    UnknownProfile(u16),
    CollisionBudgetExhausted(u16),
}

/// Every one of the four part lists offers a choice.
pub open spec fn parts_ready(parts: Seq<Vec<String>>) -> bool {
    &&& parts.len() == 4
    &&& forall|i: int| 0 <= i < 4 ==> (#[trigger] parts[i])@.len() > 0
}

pub open spec fn profile_ready(profile: PlaceNameProfile) -> bool {
    parts_ready(profile.system_parts@) && parts_ready(profile.world_parts@)
}

pub open spec fn has_profile(profiles: Seq<PlaceNameProfile>, id: u16) -> bool {
    exists|i: int| 0 <= i < profiles.len() && (#[trigger] profiles[i]).id == id
}

/// `i` is the first position of a profile with the id.
pub open spec fn is_profile_position(profiles: Seq<PlaceNameProfile>, id: u16, i: int) -> bool {
    &&& 0 <= i < profiles.len()
    &&& profiles[i].id == id
    &&& forall|j: int| 0 <= j < i ==> (#[trigger] profiles[j]).id != id
}

/// The first position of a profile with the id.
pub open spec fn profile_index(profiles: Seq<PlaceNameProfile>, id: u16) -> int {
    choose|i: int| is_profile_position(profiles, id, i)
}

/// The profile that a lookup of the id finds.
pub open spec fn profile_of(profiles: Seq<PlaceNameProfile>, id: u16) -> PlaceNameProfile {
    profiles[profile_index(profiles, id)]
}

/// The placeholder for part `i`: `{i}`.
pub open spec fn placeholder(i: int) -> Seq<char> {
    if i == 0 {
        "{0}"@
    } else if i == 1 {
        "{1}"@
    } else if i == 2 {
        "{2}"@
    } else {
        "{3}"@
    }
}

/// The part chosen for placeholder `i` by its draw.
pub open spec fn choice(parts: Seq<Vec<String>>, draws: Seq<u64>, i: int) -> Seq<char> {
    parts[i]@[((draws[i] as usize) as int) % (parts[i]@.len() as int)]@
}

/// The pattern with its first `n` placeholders replaced by their parts.
pub open spec fn filled(pattern: Seq<char>, parts: Seq<Vec<String>>, draws: Seq<u64>, n: nat) -> Seq<
    char,
>
    decreases n,
{
    if n == 0 {
        pattern
    } else {
        replace_all(
            filled(pattern, parts, draws, (n - 1) as nat),
            placeholder(n - 1),
            choice(parts, draws, n - 1),
        )
    }
}

/// The name rendered from the pattern, the parts and four draws.
pub open spec fn rendered(pattern: Seq<char>, parts: Seq<Vec<String>>, draws: Seq<u64>) -> Seq<char> {
    squeeze_spaces(filled(pattern, parts, draws, 4))
}

/// The four words a stream at `counter` draws next.
pub open spec fn stream_draws(key: Seq<u8>, counter: u64) -> Seq<u64> {
    Seq::new(4, |i: int| stream_word(key, (counter + i) as u64))
}

/// The system name drawn from a stream at `counter`.
pub open spec fn system_name_at(profile: PlaceNameProfile, key: Seq<u8>, counter: u64) -> Seq<char> {
    rendered(profile.system_pattern@, profile.system_parts@, stream_draws(key, counter))
}

/// The world name drawn from a stream at `counter`.
pub open spec fn world_name_at(profile: PlaceNameProfile, key: Seq<u8>, counter: u64) -> Seq<char> {
    rendered(profile.world_pattern@, profile.world_parts@, stream_draws(key, counter))
}

/// The profile picked for a polity by its placement seed.
pub open spec fn polity_profile_spec(placement_seed: Seq<u8>, profile_count: int) -> u16 {
    let word = stream_word(derived_seed(placement_seed, POLITY_PROFILE_LABEL@), 0);
    (2 + ((word as usize) as int) % (profile_count - 1)) as u16
}

proof fn lemma_profile_position(profiles: Seq<PlaceNameProfile>, id: u16, i: int)
    requires
        is_profile_position(profiles, id, i),
    ensures
        profile_index(profiles, id) == i,
        has_profile(profiles, id),
{
    let c = profile_index(profiles, id);
    assert(is_profile_position(profiles, id, i));
    if c < i {
        assert(profiles[c].id != id);
    } else if c > i {
        assert(profiles[i].id != id);
    }
}

fn find_profile(profiles: &[PlaceNameProfile], profile_id: u16) -> (r: Option<usize>)
    ensures
        match r {
            Some(i) => has_profile(profiles@, profile_id) && i == profile_index(
                profiles@,
                profile_id,
            ) && i < profiles@.len(),
            None => !has_profile(profiles@, profile_id),
        },
{
    let mut i: usize = 0;
    while i < profiles.len()
        invariant
            i <= profiles@.len(),
            forall|j: int| 0 <= j < i ==> (#[trigger] profiles@[j]).id != profile_id,
        decreases profiles@.len() - i,
    {
        if profiles[i].id == profile_id {
            proof {
                lemma_profile_position(profiles@, profile_id, i as int);
            }
            return Some(i);
        }
        i = i + 1;
    }
    None
}

/// The first profile with the id.
pub fn profile(profiles: &[PlaceNameProfile], profile_id: u16) -> (r: Result<
    &PlaceNameProfile,
    PlaceNameError,
>)
    ensures
        has_profile(profiles@, profile_id) ==> (r matches Ok(found) && *found == profile_of(
            profiles@,
            profile_id,
        )),
        !has_profile(profiles@, profile_id) ==> (r matches Err(PlaceNameError::UnknownProfile(id))
            && id == profile_id),
{
    match find_profile(profiles, profile_id) {
        Some(i) => Ok(&profiles[i]),
        None => Err(PlaceNameError::UnknownProfile(profile_id)),
    }
}

/// The naming profile of a polity: one of the profiles after the
/// federation's, picked by the first word of a stream derived from the
/// placement seed.
pub fn polity_profile(placement_seed: [u8; 32], profiles: &[PlaceNameProfile]) -> (r: Result<
    u16,
    PlaceNameError,
>)
    requires
        2 <= profiles@.len() <= 65535,
    ensures
        r matches Ok(id) && id == polity_profile_spec(placement_seed@, profiles@.len() as int),
{
    let label: [u8; 30] = POLITY_PROFILE_LABEL;
    let seed = match derive_seed(placement_seed, label.as_slice()) {
        Ok(seed) => seed,
        Err(e) => {
            return Err(PlaceNameError::Crypto(e));
        },
    };
    let mut stream = SeedStream::new(seed);
    let non_federation = profiles.len() - 1;
    let word = match stream.next_u64() {
        Ok(word) => word,
        Err(e) => {
            return Err(PlaceNameError::Crypto(e));
        },
    };
    Ok(2 + ((word as usize) % non_federation) as u16)
}

/// A stream of name draws for a domain of the seed.
pub fn naming_stream(seed: [u8; 32], domain: &[u8]) -> (r: Result<SeedStream, PlaceNameError>)
    ensures
        r matches Ok(stream) && stream.key() == derived_seed(seed@, domain@) && stream.counter()
            == 0,
{
    match derive_seed(seed, domain) {
        Ok(child) => Ok(SeedStream::new(child)),
        Err(e) => Err(PlaceNameError::Crypto(e)),
    }
}

fn placeholder_text(i: usize) -> (r: &'static str)
    requires
        i < 4,
    ensures
        r@ == placeholder(i as int),
        r@.len() == 3,
{
    proof {
        reveal_strlit("{0}");
        reveal_strlit("{1}");
        reveal_strlit("{2}");
        reveal_strlit("{3}");
    }
    if i == 0 {
        "{0}"
    } else if i == 1 {
        "{1}"
    } else if i == 2 {
        "{2}"
    } else {
        "{3}"
    }
}

fn render(stream: &mut SeedStream, pattern: &str, parts: &[Vec<String>; 4]) -> (r: Result<
    String,
    PlaceNameError,
>)
    requires
        parts_ready(parts@),
        old(stream).counter() + 4 <= u64::MAX,
    ensures
        final(stream).key() == old(stream).key(),
        final(stream).counter() == old(stream).counter() + 4,
        r matches Ok(name) && name@ == rendered(
            pattern@,
            parts@,
            stream_draws(old(stream).key(), old(stream).counter()),
        ),
{
    let ghost key = stream.key();
    let ghost start = stream.counter();
    let ghost draws = stream_draws(key, start);
    let mut result = String::from_str(pattern);
    let mut index: usize = 0;
    while index < 4
        invariant
            index <= 4,
            stream.key() == key,
            stream.counter() == start + index,
            start + 4 <= u64::MAX,
            parts_ready(parts@),
            draws == stream_draws(key, start),
            result@ == filled(pattern@, parts@, draws, index as nat),
        decreases 4 - index,
    {
        let word = match stream.next_u64() {
            Ok(word) => word,
            Err(e) => {
                return Err(PlaceNameError::Crypto(e));
            },
        };
        assert(word == draws[index as int]);
        let choices = &parts[index];
        assert(choices@ == parts@[index as int]@);
        let selected = &choices[(word as usize) % choices.len()];
        result = replace_text(result.as_str(), placeholder_text(index), selected.as_str());
        index = index + 1;
    }
    Ok(squeeze_text(result.as_str()))
}

/// A system name drawn from the stream with the profile's system pattern.
pub fn system_name(
    profiles: &[PlaceNameProfile],
    stream: &mut SeedStream,
    profile_id: u16,
) -> (r: Result<String, PlaceNameError>)
    requires
        has_profile(profiles@, profile_id) ==> profile_ready(profile_of(profiles@, profile_id)),
        old(stream).counter() + 4 <= u64::MAX,
    ensures
        final(stream).key() == old(stream).key(),
        has_profile(profiles@, profile_id) ==> (r matches Ok(name) && name@ == system_name_at(
            profile_of(profiles@, profile_id),
            old(stream).key(),
            old(stream).counter(),
        ) && final(stream).counter() == old(stream).counter() + 4),
        !has_profile(profiles@, profile_id) ==> (r matches Err(PlaceNameError::UnknownProfile(id))
            && id == profile_id && final(stream).counter() == old(stream).counter()),
{
    let found = match profile(profiles, profile_id) {
        Ok(found) => found,
        Err(e) => {
            return Err(e);
        },
    };
    render(stream, found.system_pattern.as_str(), &found.system_parts)
}

/// A world name drawn from the stream with the profile's world pattern.
pub fn world_name(profiles: &[PlaceNameProfile], stream: &mut SeedStream, profile_id: u16) -> (r:
    Result<String, PlaceNameError>)
    requires
        has_profile(profiles@, profile_id) ==> profile_ready(profile_of(profiles@, profile_id)),
        old(stream).counter() + 4 <= u64::MAX,
    ensures
        final(stream).key() == old(stream).key(),
        has_profile(profiles@, profile_id) ==> (r matches Ok(name) && name@ == world_name_at(
            profile_of(profiles@, profile_id),
            old(stream).key(),
            old(stream).counter(),
        ) && final(stream).counter() == old(stream).counter() + 4),
        !has_profile(profiles@, profile_id) ==> (r matches Err(PlaceNameError::UnknownProfile(id))
            && id == profile_id && final(stream).counter() == old(stream).counter()),
{
    let found = match profile(profiles, profile_id) {
        Ok(found) => found,
        Err(e) => {
            return Err(e);
        },
    };
    render(stream, found.world_pattern.as_str(), &found.world_parts)
}


/// One of the names is the text.
pub open spec fn names_include(names: Seq<String>, text: Seq<char>) -> bool {
    exists|j: int| 0 <= j < names.len() && (#[trigger] names[j])@ == text
}

/// The system name of draw `k`, each draw taking four words of the stream.
pub open spec fn candidate_name(profile: PlaceNameProfile, key: Seq<u8>, counter: u64, k: int) -> Seq<
    char,
> {
    system_name_at(profile, key, (counter + 4 * k) as u64)
}

/// Draw `k` gives a name whose lower-case form is already in use.
pub open spec fn candidate_taken(
    profile: PlaceNameProfile,
    key: Seq<u8>,
    counter: u64,
    used: Seq<String>,
    k: int,
) -> bool {
    names_include(used, ascii_lowercase(candidate_name(profile, key, counter, k)))
}

/// Draw `k` is the first whose name is not in use.
pub open spec fn is_first_free_draw(
    profile: PlaceNameProfile,
    key: Seq<u8>,
    counter: u64,
    used: Seq<String>,
    k: int,
) -> bool {
    &&& 0 <= k < MAX_UNIQUE_NAME_DRAWS
    &&& !candidate_taken(profile, key, counter, used, k)
    &&& forall|q: int| 0 <= q < k ==> #[trigger] candidate_taken(profile, key, counter, used, q)
}

fn contains_name(names: &Vec<String>, text: &str) -> (r: bool)
    ensures
        r == names_include(names@, text@),
{
    let mut j: usize = 0;
    while j < names.len()
        invariant
            j <= names@.len(),
            forall|q: int| 0 <= q < j ==> (#[trigger] names@[q])@ != text@,
        decreases names@.len() - j,
    {
        if text_equals(names[j].as_str(), text) {
            return true;
        }
        j = j + 1;
    }
    false
}

/// A system name whose lower-case form is not in `used_casefolded`, which
/// then takes it.  Each draw takes four words of the stream; after
/// `MAX_UNIQUE_NAME_DRAWS` names already in use the draws give up.
pub fn unique_system_name(
    profiles: &[PlaceNameProfile],
    stream: &mut SeedStream,
    profile_id: u16,
    used_casefolded: &mut Vec<String>,
) -> (r: Result<String, PlaceNameError>)
    requires
        has_profile(profiles@, profile_id) ==> profile_ready(profile_of(profiles@, profile_id)),
        old(stream).counter() + 4 * MAX_UNIQUE_NAME_DRAWS <= u64::MAX,
    ensures
        final(stream).key() == old(stream).key(),
        !has_profile(profiles@, profile_id) ==> (r matches Err(PlaceNameError::UnknownProfile(id))
            && id == profile_id && final(stream).counter() == old(stream).counter()
            && final(used_casefolded)@ == old(used_casefolded)@),
        has_profile(profiles@, profile_id) ==> (r matches Ok(name) <==> exists|k: int|
            is_first_free_draw(
                profile_of(profiles@, profile_id),
                old(stream).key(),
                old(stream).counter(),
                old(used_casefolded)@,
                k,
            )),
        r matches Ok(name) ==> {
            &&& !names_include(old(used_casefolded)@, ascii_lowercase(name@))
            &&& final(used_casefolded)@.len() == old(used_casefolded)@.len() + 1
            &&& final(used_casefolded)@.drop_last() == old(used_casefolded)@
            &&& final(used_casefolded)@.last()@ == ascii_lowercase(name@)
            &&& exists|k: int|
                is_first_free_draw(
                    profile_of(profiles@, profile_id),
                    old(stream).key(),
                    old(stream).counter(),
                    old(used_casefolded)@,
                    k,
                ) && name@ == candidate_name(
                    profile_of(profiles@, profile_id),
                    old(stream).key(),
                    old(stream).counter(),
                    k,
                ) && final(stream).counter() == old(stream).counter() + 4 * (k + 1)
        },
        has_profile(profiles@, profile_id) && !(r is Ok) ==> (r matches Err(
            PlaceNameError::CollisionBudgetExhausted(id),
        ) && id == profile_id && final(stream).counter() == old(stream).counter() + 4
            * MAX_UNIQUE_NAME_DRAWS && final(used_casefolded)@ == old(used_casefolded)@),
{
    let ghost key = stream.key();
    let ghost start = stream.counter();
    let ghost used = used_casefolded@;
    let ghost found = profile_of(profiles@, profile_id);
    let mut draw: usize = 0;
    while draw < MAX_UNIQUE_NAME_DRAWS
        invariant
            draw <= MAX_UNIQUE_NAME_DRAWS,
            key == old(stream).key(),
            start == old(stream).counter(),
            used == old(used_casefolded)@,
            stream.key() == key,
            stream.counter() == start + 4 * draw,
            start + 4 * MAX_UNIQUE_NAME_DRAWS <= u64::MAX,
            used_casefolded@ == used,
            found == profile_of(profiles@, profile_id),
            has_profile(profiles@, profile_id) ==> profile_ready(found),
            draw > 0 ==> has_profile(profiles@, profile_id),
            forall|q: int| 0 <= q < draw ==> #[trigger] candidate_taken(found, key, start, used, q),
        decreases MAX_UNIQUE_NAME_DRAWS - draw,
    {
        let candidate = match system_name(profiles, stream, profile_id) {
            Ok(candidate) => candidate,
            Err(e) => {
                return Err(e);
            },
        };
        assert(candidate@ == candidate_name(found, key, start, draw as int));
        let lower = lowercase_ascii(candidate.as_str());
        if !contains_name(used_casefolded, lower.as_str()) {
            assert(is_first_free_draw(found, key, start, used, draw as int));
            used_casefolded.push(lower);
            assert(used_casefolded@.drop_last() =~= used);
            return Ok(candidate);
        }
        draw = draw + 1;
    }
    proof {
        if has_profile(profiles@, profile_id) {
            assert forall|k: int| !is_first_free_draw(found, key, start, used, k) by {
                if 0 <= k < MAX_UNIQUE_NAME_DRAWS {
                    assert(candidate_taken(found, key, start, used, k));
                }
            }
        }
    }
    Err(PlaceNameError::CollisionBudgetExhausted(profile_id))
}

} // verus!
