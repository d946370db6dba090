//! The combat rules catalog: one `[[weapon]]` table per weapon, read line by
//! line as `key = value` assignments.

use vstd::prelude::*;
use vstd::string::StrSliceExecFns;
use crate::combat::{DamageDice, WeaponRule};
use crate::combat_catalog::{
    compare_text, lemma_lex_antisymmetric, lemma_lex_transitive, lex_order, text_bytes,
};
use crate::catalog_text::{
    back_char, back_white, chars_of, find_char, integer_in, is_digits, skip_white,
    lemma_next_char_bounds, next_char, number_from, number_value, parse_integer, skip_char,
    text_from, text_in, text_value, trimmed, trim_end, trim_start, find_pattern, lemma_next_pattern,
    next_pattern, tables_after, bracket_range, has_word, range_texts, ranges_within, word_list,
    words_from,
};

verus! {

// ---------------------------------------------------------------------------
// Comma-separated lists.

/// The items of `[i, end)` between commas that read as an `i8`, in order.
pub open spec fn small_numbers(s: Seq<char>, i: int, end: int) -> Seq<i8>
    decreases end + 1 - i,
{
    if i > end {
        Seq::empty()
    } else {
        let e = next_char(s, ',', i, end);
        proof {
            lemma_next_char_bounds(s, ',', i, end);
        }
        let rest = if e < end {
            small_numbers(s, e + 1, end)
        } else {
            Seq::empty()
        };
        match parse_integer(trimmed(s, i, e), -128, 127) {
            Some(v) => seq![v as i8] + rest,
            None => rest,
        }
    }
}

fn number_list(s: &Vec<char>, a: usize, b: usize) -> (r: Vec<i8>)
    requires
        a <= b <= s@.len(),
    ensures
        r@ == small_numbers(s@, a as int, b as int),
{
    let mut out: Vec<i8> = Vec::new();
    let mut i = a;
    let mut done = false;
    while !done
        invariant
            a <= i <= b <= s@.len(),
            !done ==> out@ + small_numbers(s@, i as int, b as int) == small_numbers(
                s@,
                a as int,
                b as int,
            ),
            done ==> out@ == small_numbers(s@, a as int, b as int),
        decreases (if done {
            0int
        } else {
            b + 2 - i
        }),
    {
        let e = find_char(s, ',', i, b);
        let ta = skip_white(s, i, e);
        let tb = back_white(s, ta, e);
        let ghost before = out@;
        let ghost rest = if e < b {
            small_numbers(s@, e + 1, b as int)
        } else {
            Seq::empty()
        };
        let ghost parsed = parse_integer(trimmed(s@, i as int, e as int), -128, 127);
        assert(ta == trim_start(s@, i as int, e as int));
        assert(tb == trim_end(s@, i as int, e as int));
        assert(s@.subrange(ta as int, tb as int) == trimmed(s@, i as int, e as int));
        assert(small_numbers(s@, i as int, b as int) == match parsed {
            Some(v) => seq![v as i8] + rest,
            None => rest,
        });
        match integer_in(s, ta, tb, -128, 127) {
            Some(v) => {
                assert(parsed == Some(v as int));
                out.push(v as i8);
                assert(out@ =~= before + seq![v as i8]);
                assert(before + small_numbers(s@, i as int, b as int) =~= out@ + rest);
            },
            None => {
                assert(parsed is None);
                assert(before + small_numbers(s@, i as int, b as int) =~= out@ + rest);
            },
        }
        proof {
            if e < b {
                assert(before + small_numbers(s@, i as int, b as int) =~= out@ + small_numbers(
                    s@,
                    e + 1,
                    b as int,
                ));
            } else {
                assert(out@ =~= before + small_numbers(s@, i as int, b as int));
            }
        }
        if e < b {
            i = e + 1;
        } else {
            done = true;
        }
    }
    out
}

// ---------------------------------------------------------------------------
// One weapon table.

/// The difficulty modifiers of the table `[a, b)`.
pub open spec fn difficulty_of(s: Seq<char>, a: int, b: int) -> Seq<i8> {
    match text_from(s, "difficulty_dm"@, a, b) {
        Some(v) => small_numbers(s, bracket_range(s, v.0, v.1).0, bracket_range(s, v.0, v.1).1),
        None => Seq::empty(),
    }
}

/// The traits of the table `[a, b)`.
pub open spec fn traits_of(s: Seq<char>, a: int, b: int) -> Seq<Seq<char>> {
    match text_from(s, "traits"@, a, b) {
        Some(v) => words_from(s, bracket_range(s, v.0, v.1).0, bracket_range(s, v.0, v.1).1),
        None => Seq::empty(),
    }
}

pub open spec fn dice_of(s: Seq<char>, a: int, b: int) -> Option<int> {
    number_from(s, "dice"@, a, b, 0, u64::MAX as int)
}

pub open spec fn modifier_of(s: Seq<char>, a: int, b: int) -> Option<int> {
    number_from(s, "modifier"@, a, b, i64::MIN as int, i64::MAX as int)
}

/// What is wrong with the weapon table `[a, b)`, if anything, checked in
/// order: the id, the dice, the modifier, the seven difficulty modifiers,
/// then whether the dice and the modifier fit their fields.
pub open spec fn table_problem(s: Seq<char>, a: int, b: int) -> Option<Seq<char>> {
    match text_from(s, "id"@, a, b) {
        None => Some("weapon rule without id"@),
        Some(at) => {
            let id = s.subrange(at.0, at.1);
            match dice_of(s, a, b) {
                None => Some(id + ": missing dice"@),
                Some(dice) => match modifier_of(s, a, b) {
                    None => Some(id + ": missing modifier"@),
                    Some(modifier) => if difficulty_of(s, a, b).len() != 7 {
                        Some(id + ": difficulty_dm must contain seven entries"@)
                    } else if dice > 255 {
                        Some("weapon dice overflow"@)
                    } else if modifier < -128 || modifier > 127 {
                        Some("weapon modifier overflow"@)
                    } else {
                        None
                    },
                },
            }
        },
    }
}

/// The rule is what the weapon table `[a, b)` says.
pub open spec fn rule_read(rule: WeaponRule, s: Seq<char>, a: int, b: int) -> bool {
    &&& text_from(s, "id"@, a, b) matches Some(at) && rule.id@ == s.subrange(at.0, at.1)
    &&& dice_of(s, a, b) == Some(rule.damage.dice as int)
    &&& modifier_of(s, a, b) == Some(rule.damage.modifier as int)
    &&& rule.difficulty_dm@ == difficulty_of(s, a, b)
    &&& rule.beam == traits_of(s, a, b).contains("beam"@)
    &&& rule.missile == traits_of(s, a, b).contains("missile"@)
    &&& rule.radiation == traits_of(s, a, b).contains("radiation"@)
    &&& rule.meson == traits_of(s, a, b).contains("meson"@)
    &&& rule.sand == traits_of(s, a, b).contains("sand"@)
    &&& rule.bay == traits_of(s, a, b).contains("bay"@)
    &&& match text_from(s, "ammunition"@, a, b) {
        Some(at) => rule.ammunition_id matches Some(id) && id@ == s.subrange(at.0, at.1),
        None => rule.ammunition_id is None,
    }
}

fn list_value(s: &Vec<char>, key: &Vec<char>, a: usize, b: usize) -> (r: (usize, usize))
    requires
        a <= b <= s@.len(),
    ensures
        r.0 <= r.1 <= s@.len(),
        match text_from(s@, key@, a as int, b as int) {
            Some(v) => r.0 == bracket_range(s@, v.0, v.1).0 && r.1 == bracket_range(
                s@,
                v.0,
                v.1,
            ).1,
            None => r.0 == r.1,
        },
{
    match text_value(s, key, a, b) {
        Some((x, y)) => {
            let l = skip_char(s, '[', x, y);
            let r = back_char(s, ']', l, y);
            (l, r)
        },
        None => (a, a),
    }
}

proof fn lemma_empty_lists(s: Seq<char>, i: int)
    requires
        0 <= i <= s.len(),
    ensures
        small_numbers(s, i, i) == Seq::<i8>::empty(),
        words_from(s, i, i) == Seq::<Seq<char>>::empty(),
{
    assert(next_char(s, ',', i, i) == i);
    assert(trimmed(s, i, i) =~= Seq::<char>::empty());
    assert(!is_digits(Seq::<char>::empty()));
}

/// Which of the traits `beam`, `missile`, `radiation`, `meson`, `sand` and
/// `bay` the words name.
fn trait_flags(s: &Vec<char>, words: &Vec<(usize, usize)>) -> (r: (bool, bool, bool, bool, bool, bool))
    requires
        ranges_within(words@, s@.len() as int),
    ensures
        r.0 == range_texts(s@, words@).contains("beam"@),
        r.1 == range_texts(s@, words@).contains("missile"@),
        r.2 == range_texts(s@, words@).contains("radiation"@),
        r.3 == range_texts(s@, words@).contains("meson"@),
        r.4 == range_texts(s@, words@).contains("sand"@),
        r.5 == range_texts(s@, words@).contains("bay"@),
{
    (
        has_word(s, words, &chars_of("beam")),
        has_word(s, words, &chars_of("missile")),
        has_word(s, words, &chars_of("radiation")),
        has_word(s, words, &chars_of("meson")),
        has_word(s, words, &chars_of("sand")),
        has_word(s, words, &chars_of("bay")),
    )
}

/// Reads the weapon table `[a, b)` of the catalog.
fn read_table(source: &str, s: &Vec<char>, a: usize, b: usize) -> (r: Result<WeaponRule, String>)
    requires
        s@ == source@,
        a <= b <= s@.len(),
    ensures
        match table_problem(s@, a as int, b as int) {
            Some(message) => r matches Err(e) && e@ == message,
            None => r matches Ok(rule) && rule_read(rule, s@, a as int, b as int),
        },
{
    let id_at = match text_value(s, &chars_of("id"), a, b) {
        Some(at) => at,
        None => {
            return Err(String::from_str("weapon rule without id"));
        },
    };
    let id = text_in(source, s, id_at.0, id_at.1);
    let dice = match number_value(s, &chars_of("dice"), a, b, 0, 0xffff_ffff_ffff_ffffi128) {
        Some(dice) => dice,
        None => {
            return Err(id.concat(": missing dice"));
        },
    };
    let modifier = match number_value(
        s,
        &chars_of("modifier"),
        a,
        b,
        -0x8000_0000_0000_0000i128,
        0x7fff_ffff_ffff_ffffi128,
    ) {
        Some(modifier) => modifier,
        None => {
            return Err(id.concat(": missing modifier"));
        },
    };
    let difficulty_at = list_value(s, &chars_of("difficulty_dm"), a, b);
    let difficulty = number_list(s, difficulty_at.0, difficulty_at.1);
    proof {
        lemma_empty_lists(s@, difficulty_at.0 as int);
    }
    if difficulty.len() != 7 {
        return Err(id.concat(": difficulty_dm must contain seven entries"));
    }
    let difficulty_dm: [i8; 7] = [
        difficulty[0],
        difficulty[1],
        difficulty[2],
        difficulty[3],
        difficulty[4],
        difficulty[5],
        difficulty[6],
    ];
    assert(difficulty_dm@ =~= difficulty@);
    let traits_at = list_value(s, &chars_of("traits"), a, b);
    let traits = word_list(s, traits_at.0, traits_at.1);
    let flags = trait_flags(s, &traits);
    proof {
        lemma_empty_lists(s@, traits_at.0 as int);
    }
    if dice > 255 {
        return Err(String::from_str("weapon dice overflow"));
    }
    if modifier < -128 || modifier > 127 {
        return Err(String::from_str("weapon modifier overflow"));
    }
    let ammunition_id = match text_value(s, &chars_of("ammunition"), a, b) {
        Some(at) => Some(text_in(source, s, at.0, at.1)),
        None => None,
    };
    let (beam, missile, radiation, meson, sand, bay) = flags;
    Ok(
        WeaponRule {
            id,
            damage: DamageDice { dice: dice as u8, modifier: modifier as i8 },
            difficulty_dm,
            beam,
            missile,
            radiation,
            meson,
            sand,
            bay,
            ammunition_id,
        },
    )
}


// ---------------------------------------------------------------------------
// The tables of the catalog.

/// The weapon tables of the catalog: the text after each `[[weapon]]`
/// header, up to the next header or the end.
pub open spec fn weapon_tables(s: Seq<char>) -> Seq<(int, int)> {
    let m = next_pattern(s, "[[weapon]]"@, 0);
    if m < s.len() {
        tables_after(s, "[[weapon]]"@, m + "[[weapon]]"@.len())
    } else {
        Seq::empty()
    }
}

/// The problem of the first faulty table from the `k`th on, if any.
pub open spec fn first_problem(s: Seq<char>, tables: Seq<(int, int)>, k: int) -> Option<Seq<char>>
    decreases tables.len() - k,
{
    if k < 0 || k >= tables.len() {
        None
    } else {
        match table_problem(s, tables[k].0, tables[k].1) {
            Some(message) => Some(message),
            None => first_problem(s, tables, k + 1),
        }
    }
}

/// Where the rule goes into sorted rules: after each rule whose id does
/// not order after its own.
pub open spec fn insert_position(sorted: Seq<WeaponRule>, rule: WeaponRule, i: int) -> int
    decreases sorted.len() - i,
{
    if i < 0 || i >= sorted.len() {
        sorted.len() as int
    } else if lex_order(text_bytes(sorted[i].id), text_bytes(rule.id)) > 0 {
        i
    } else {
        insert_position(sorted, rule, i + 1)
    }
}

/// The rules in ascending order of their ids, rules with equal ids in the
/// order they came: a stable sort.
pub open spec fn sort_by_id(rules: Seq<WeaponRule>) -> Seq<WeaponRule>
    decreases rules.len(),
{
    if rules.len() == 0 {
        Seq::empty()
    } else {
        let prior = sort_by_id(rules.drop_last());
        prior.insert(insert_position(prior, rules.last(), 0), rules.last())
    }
}

pub open spec fn ordered_by_id(rules: Seq<WeaponRule>) -> bool {
    forall|i: int, j: int|
        0 <= i < j < rules.len() ==> lex_order(
            text_bytes(#[trigger] rules[i].id),
            text_bytes(#[trigger] rules[j].id),
        ) <= 0
}

proof fn lemma_insert_position(sorted: Seq<WeaponRule>, rule: WeaponRule, i: int)
    requires
        0 <= i <= sorted.len(),
    ensures
        i <= insert_position(sorted, rule, i) <= sorted.len(),
        forall|k: int|
            i <= k < insert_position(sorted, rule, i) ==> lex_order(
                text_bytes(#[trigger] sorted[k].id),
                text_bytes(rule.id),
            ) <= 0,
        insert_position(sorted, rule, i) < sorted.len() ==> lex_order(
            text_bytes(sorted[insert_position(sorted, rule, i)].id),
            text_bytes(rule.id),
        ) > 0,
    decreases sorted.len() - i,
{
    if i < sorted.len() && lex_order(text_bytes(sorted[i].id), text_bytes(rule.id)) <= 0 {
        lemma_insert_position(sorted, rule, i + 1);
    }
}

proof fn lemma_lex_le_transitive(a: Seq<u8>, b: Seq<u8>, c: Seq<u8>)
    requires
        lex_order(a, b) <= 0,
        lex_order(b, c) <= 0,
    ensures
        lex_order(a, c) <= 0,
{
    lemma_lex_antisymmetric(a, b);
    lemma_lex_antisymmetric(b, c);
    if lex_order(a, b) < 0 && lex_order(b, c) < 0 {
        lemma_lex_transitive(a, b, c);
    }
}

/// Sorting by id leaves the rules in ascending order of their ids.
pub proof fn lemma_sort_by_id_ordered(rules: Seq<WeaponRule>)
    ensures
        ordered_by_id(sort_by_id(rules)),
        sort_by_id(rules).len() == rules.len(),
    decreases rules.len(),
{
    if rules.len() > 0 {
        let prior = sort_by_id(rules.drop_last());
        let x = rules.last();
        lemma_sort_by_id_ordered(rules.drop_last());
        lemma_insert_position(prior, x, 0);
        let p = insert_position(prior, x, 0);
        let out = prior.insert(p, x);
        assert forall|i: int, j: int| 0 <= i < j < out.len() implies lex_order(
            text_bytes(#[trigger] out[i].id),
            text_bytes(#[trigger] out[j].id),
        ) <= 0 by {
            let kx = text_bytes(x.id);
            if i < p && j < p {
                assert(out[i] == prior[i] && out[j] == prior[j]);
            } else if i < p && j == p {
                assert(out[i] == prior[i]);
            } else if i < p && j > p {
                assert(out[i] == prior[i] && out[j] == prior[j - 1]);
            } else if i == p {
                assert(out[j] == prior[j - 1]);
                lemma_lex_antisymmetric(text_bytes(prior[p].id), kx);
                if j - 1 > p {
                    lemma_lex_le_transitive(kx, text_bytes(prior[p].id), text_bytes(prior[j - 1].id));
                }
            } else {
                assert(out[i] == prior[i - 1] && out[j] == prior[j - 1]);
            }
        }
    }
}

fn insert_by_id(sorted: &mut Vec<WeaponRule>, rule: WeaponRule)
    ensures
        final(sorted)@ == old(sorted)@.insert(insert_position(old(sorted)@, rule, 0), rule),
{
    let mut p: usize = 0;
    while p < sorted.len() && compare_text(&sorted[p].id, &rule.id) <= 0
        invariant
            p <= sorted@.len(),
            sorted@ == old(sorted)@,
            insert_position(sorted@, rule, p as int) == insert_position(sorted@, rule, 0),
        decreases sorted@.len() - p,
    {
        p = p + 1;
    }
    sorted.insert(p, rule);
}

proof fn lemma_first_problem_skip(s: Seq<char>, tables: Seq<(int, int)>, k: int)
    requires
        0 <= k <= tables.len(),
        forall|j: int| 0 <= j < k ==> table_problem(s, #[trigger] tables[j].0, tables[j].1) is None,
    ensures
        first_problem(s, tables, 0) == first_problem(s, tables, k),
    decreases k,
{
    if k > 0 {
        lemma_first_problem_skip(s, tables, k - 1);
    }
}

/// The weapon rules of a combat rules catalog, in ascending order of their
/// ids: the first faulty `[[weapon]]` table is refused with its problem.
pub fn weapon_rules(source: &str) -> (r: Result<Vec<WeaponRule>, String>)
    ensures
        match first_problem(source@, weapon_tables(source@), 0) {
            Some(message) => r matches Err(e) && e@ == message,
            None => r matches Ok(rules) && exists|read: Seq<WeaponRule>|
                {
                    &&& read.len() == weapon_tables(source@).len()
                    &&& forall|k: int|
                        0 <= k < read.len() ==> rule_read(
                            #[trigger] read[k],
                            source@,
                            weapon_tables(source@)[k].0,
                            weapon_tables(source@)[k].1,
                        )
                    &&& rules@ == sort_by_id(read)
                },
        },
        r matches Ok(rules) ==> ordered_by_id(rules@),
{
    let s = chars_of(source);
    let header = chars_of("[[weapon]]");
    proof {
        reveal_strlit("[[weapon]]");
    }
    let ghost tables = weapon_tables(source@);
    let n = s.len();
    let mut sorted: Vec<WeaponRule> = Vec::new();
    let ghost mut read: Seq<WeaponRule> = Seq::empty();
    let first = find_pattern(&s, &header, 0);
    if first == n {
        proof {
            lemma_sort_by_id_ordered(read);
        }
        return Ok(sorted);
    }
    proof {
        lemma_next_pattern(s@, header@, 0);
    }
    let mut i = first + header.len();
    let mut done = false;
    while !done
        invariant
            s@ == source@,
            header@ == "[[weapon]]"@,
            header@.len() == 10,
            n == s@.len(),
            tables == weapon_tables(source@),
            i <= n,
            read.len() <= tables.len(),
            !done ==> tables.skip(read.len() as int) == tables_after(s@, header@, i as int),
            done ==> read.len() == tables.len(),
            forall|j: int| 0 <= j < read.len() ==> table_problem(s@, #[trigger] tables[j].0, tables[j].1) is None,
            forall|j: int|
                0 <= j < read.len() ==> rule_read(#[trigger] read[j], s@, tables[j].0, tables[j].1),
            sorted@ == sort_by_id(read),
        decreases (if done {
            0int
        } else {
            n + 1 - i
        }),
    {
        let m = find_pattern(&s, &header, i);
        proof {
            lemma_next_pattern(s@, header@, i as int);
        }
        let end = if m < n {
            m
        } else {
            n
        };
        let ghost rest = tables_after(s@, header@, i as int);
        assert(rest.len() >= 1 && rest[0] == (i as int, end as int));
        assert(tables.skip(read.len() as int)[0] == tables[read.len() as int]);
        assert(tables[read.len() as int] == (i as int, end as int));
        let rule = match read_table(source, &s, i, end) {
            Ok(rule) => rule,
            Err(e) => {
                proof {
                    lemma_first_problem_skip(s@, tables, read.len() as int);
                }
                return Err(e);
            },
        };
        let ghost kept = rule;
        let ghost old_len = read.len() as int;
        insert_by_id(&mut sorted, rule);
        proof {
            let before = read;
            read = read.push(kept);
            assert(read.drop_last() =~= before);
        }
        if m < n {
            assert(rest =~= seq![(i as int, m as int)] + tables_after(s@, header@, (m + 10) as int));
            assert(tables.skip(old_len + 1) =~= tables.skip(old_len).skip(1));
            assert(tables.skip(read.len() as int) =~= tables_after(s@, header@, (m + 10) as int));
            i = m + header.len();
        } else {
            done = true;
        }
    }
    proof {
        lemma_first_problem_skip(s@, tables, read.len() as int);
        lemma_sort_by_id_ordered(read);
    }
    Ok(sorted)
}

} // verus!
