//! What the combat rules and the market read from a ship's catalog record:
//! its armor, its weapon mounts, barbettes and bays, its ammunition and
//! screens, its electronics and the revision of the record.

use vstd::prelude::*;
use vstd::string::StrSliceExecFns;
use crate::catalog_text::{
    bracket_range, chars_of, range_equals, ranges_within, cut_table, find_pattern,
    find_pattern_before, header_tables, lemma_next_pattern, next_pattern, number_from, number_value,
    range_texts, raw_from, raw_value, skip_char, back_char, tables_after, text_from, text_in,
    text_value, word_list, words_from,
};
use crate::creation::{ShipAmmunitionSpec, ShipCombatSpec, ShipWeaponMountSpec};

verus! {

/// The tables under `header`, each cut at the first line that opens
/// another table.
pub open spec fn cut_tables(s: Seq<char>, header: Seq<char>) -> Seq<(int, int)> {
    header_tables(s, header).map_values(|t: (int, int)| cut_table(s, t))
}

/// The ranges as integer pairs.
pub open spec fn int_ranges(ranges: Seq<(usize, usize)>) -> Seq<(int, int)> {
    ranges.map_values(|r: (usize, usize)| (r.0 as int, r.1 as int))
}

/// The tables under `header`, cut.
pub(crate) fn table_list(s: &Vec<char>, header: &Vec<char>) -> (r: Vec<(usize, usize)>)
    requires
        header@.len() > 0,
    ensures
        int_ranges(r@) == cut_tables(s@, header@),
        ranges_within(r@, s@.len() as int),
{
    let n = s.len();
    let p = header.len();
    let mut out: Vec<(usize, usize)> = Vec::new();
    let first = find_pattern(s, header, 0);
    proof {
        lemma_next_pattern(s@, header@, 0);
    }
    if first == n {
        assert(int_ranges(out@) =~= cut_tables(s@, header@));
        return out;
    }
    let ghost tables = header_tables(s@, header@);
    let mut i = first + p;
    let mut done = false;
    while !done
        invariant
            n == s@.len(),
            p == header@.len(),
            p > 0,
            tables == header_tables(s@, header@),
            i <= n,
            out@.len() <= tables.len(),
            !done ==> tables.skip(out@.len() as int) == tables_after(s@, header@, i as int),
            done ==> out@.len() == tables.len(),
            forall|k: int|
                0 <= k < out@.len() ==> (#[trigger] int_ranges(out@)[k]) == cut_table(s@, tables[k]),
            ranges_within(out@, s@.len() as int),
        decreases (if done {
            0int
        } else {
            n + 1 - i
        }),
    {
        let m = find_pattern(s, header, i);
        proof {
            lemma_next_pattern(s@, header@, i as int);
        }
        let end = if m < n {
            m
        } else {
            n
        };
        let ghost rest = tables_after(s@, header@, i as int);
        assert(rest.len() >= 1 && rest[0] == (i as int, end as int));
        assert(tables.skip(out@.len() as int)[0] == tables[out@.len() as int]);
        let ghost before = out@;
        let cut = find_pattern_before(s, &chars_of("\n["), i, end);
        proof {
            reveal_strlit("\n[");
        }
        out.push((i, cut));
        assert forall|k: int| 0 <= k < out@.len() implies (#[trigger] out@[k]).0 <= out@[k].1 <= s@.len() by {
            if k < before.len() {
                assert(out@[k] == before[k]);
            }
        }
        assert forall|k: int| 0 <= k < out@.len() implies (#[trigger] int_ranges(out@)[k])
            == cut_table(s@, tables[k]) by {
            if k < before.len() {
                assert(out@[k] == before[k]);
                assert(int_ranges(before)[k] == cut_table(s@, tables[k]));
            }
        }
        assert(out@[out@.len() - 1] == (i, cut));
        if m < n {
            assert(rest =~= seq![(i as int, m as int)] + tables_after(s@, header@, (m + p) as int));
            assert(tables.skip(before.len() as int + 1) =~= tables.skip(before.len() as int).skip(1));
            i = m + p;
        } else {
            done = true;
        }
    }
    assert(int_ranges(out@) =~= cut_tables(s@, header@));
    out
}

// ---------------------------------------------------------------------------
// Weapon mounts.

/// The words of the array that the first line of `[a, c)` assigning to
/// `key` holds: brackets, white space and quotes taken off, empty items
/// left out.
pub open spec fn array_words(s: Seq<char>, key: Seq<char>, a: int, c: int) -> Seq<Seq<char>> {
    match raw_from(s, key, a, c) {
        Some(v) => words_from(s, bracket_range(s, v.0, v.1).0, bracket_range(s, v.0, v.1).1),
        None => Seq::empty(),
    }
}

/// How many times the table's equipment is fitted: its quantity, or one.
pub open spec fn fitted_count(s: Seq<char>, t: (int, int)) -> int {
    match number_from(s, "quantity"@, t.0, t.1, 0, u64::MAX as int) {
        Some(q) => q,
        None => 1,
    }
}

/// The mounts of the tables from the `k`th on, each fitted as often as its
/// quantity says: its id and the weapons it holds; a barbette or bay
/// (`single`) holds the weapon it is named for.  Nothing where some table
/// has no id.
pub open spec fn mount_entries(s: Seq<char>, tables: Seq<(int, int)>, k: int, single: bool) -> Option<
    Seq<(Seq<char>, Seq<Seq<char>>)>,
>
    decreases tables.len() - k,
{
    if k < 0 || k >= tables.len() {
        Some(Seq::empty())
    } else {
        let t = tables[k];
        match text_from(s, "id"@, t.0, t.1) {
            None => None,
            Some(at) => {
                let id = s.subrange(at.0, at.1);
                let weapons = if single {
                    seq![id]
                } else {
                    array_words(s, "weapons"@, t.0, t.1)
                };
                match mount_entries(s, tables, k + 1, single) {
                    None => None,
                    Some(rest) => Some(
                        Seq::new(fitted_count(s, t) as nat, |i: int| (id, weapons)) + rest,
                    ),
                }
            },
        }
    }
}

/// `acc` before what the later tables give, if they give anything.
pub open spec fn after_entries(
    acc: Seq<(Seq<char>, Seq<Seq<char>>)>,
    rest: Option<Seq<(Seq<char>, Seq<Seq<char>>)>>,
) -> Option<Seq<(Seq<char>, Seq<Seq<char>>)>> {
    match rest {
        Some(r) => Some(acc + r),
        None => None,
    }
}

/// The texts of the strings.
pub open spec fn texts(v: Seq<String>) -> Seq<Seq<char>> {
    v.map_values(|x: String| x@)
}

/// Each mount as its id and weapons.
pub open spec fn mount_views(mounts: Seq<ShipWeaponMountSpec>) -> Seq<(Seq<char>, Seq<Seq<char>>)> {
    mounts.map_values(|m: ShipWeaponMountSpec| (m.mount_id@, texts(m.weapons@)))
}

/// Every mount is fitted once.
pub open spec fn single_mounts(mounts: Seq<ShipWeaponMountSpec>) -> bool {
    forall|k: int| 0 <= k < mounts.len() ==> (#[trigger] mounts[k]).quantity == 1
}

fn copy_texts(v: &Vec<String>) -> (r: Vec<String>)
    ensures
        r@ == v@,
{
    let mut out: Vec<String> = Vec::new();
    let mut k: usize = 0;
    while k < v.len()
        invariant
            k <= v@.len(),
            out@ == v@.take(k as int),
        decreases v@.len() - k,
    {
        out.push(v[k].clone());
        assert(out@ =~= v@.take(k + 1));
        k = k + 1;
    }
    assert(v@.take(v@.len() as int) =~= v@);
    out
}

fn strings_of(source: &str, s: &Vec<char>, ranges: &Vec<(usize, usize)>) -> (r: Vec<String>)
    requires
        s@ == source@,
        ranges_within(ranges@, s@.len() as int),
    ensures
        texts(r@) == range_texts(s@, ranges@),
{
    let mut out: Vec<String> = Vec::new();
    let mut k: usize = 0;
    while k < ranges.len()
        invariant
            k <= ranges@.len(),
            s@ == source@,
            ranges_within(ranges@, s@.len() as int),
            texts(out@) == range_texts(s@, ranges@.take(k as int)),
        decreases ranges@.len() - k,
    {
        let (x, y) = ranges[k];
        let ghost before = out@;
        out.push(text_in(source, s, x, y));
        assert(ranges@.take(k + 1) =~= ranges@.take(k as int).push(ranges@[k as int]));
        assert(texts(out@) =~= texts(before).push(s@.subrange(x as int, y as int)));
        assert(range_texts(s@, ranges@.take(k + 1)) =~= range_texts(s@, ranges@.take(k as int)).push(
            s@.subrange(x as int, y as int),
        ));
        k = k + 1;
    }
    assert(ranges@.take(ranges@.len() as int) =~= ranges@);
    out
}

/// Fits the mounts of the tables under `header`, in order, after those
/// already in `mounts`; false, with `mounts` left partly filled, where a
/// table has no id.
fn fit_mounts(
    source: &str,
    s: &Vec<char>,
    header: &str,
    single: bool,
    mounts: &mut Vec<ShipWeaponMountSpec>,
) -> (r: bool)
    requires
        s@ == source@,
        header@.len() > 0,
    ensures
        r == mount_entries(s@, cut_tables(s@, header@), 0, single) is Some,
        r ==> mount_views(final(mounts)@) == mount_views(old(mounts)@) + mount_entries(
            s@,
            cut_tables(s@, header@),
            0,
            single,
        )->0,
        r && single_mounts(old(mounts)@) ==> single_mounts(final(mounts)@),
{
    let header_chars = chars_of(header);
    let tables = table_list(s, &header_chars);
    let ghost all = cut_tables(s@, header@);
    let ghost start = mounts@;
    let id_key = chars_of("id");
    let weapons_key = chars_of("weapons");
    let quantity_key = chars_of("quantity");
    let mut k: usize = 0;
    while k < tables.len()
        invariant
            s@ == source@,
            all == cut_tables(s@, header@),
            int_ranges(tables@) == all,
            ranges_within(tables@, s@.len() as int),
            k <= tables@.len(),
            start == old(mounts)@,
            id_key@ == "id"@,
            weapons_key@ == "weapons"@,
            quantity_key@ == "quantity"@,
            mount_entries(s@, all, 0, single) == after_entries(
                mount_views(mounts@).skip(start.len() as int),
                mount_entries(s@, all, k as int, single),
            ),
            mounts@.len() >= start.len(),
            mounts@.take(start.len() as int) == start,
            single_mounts(start) ==> single_mounts(mounts@),
        decreases tables@.len() - k,
    {
        let (a, c) = tables[k];
        assert(all[k as int] == (a as int, c as int));
        let id_at = match text_value(s, &id_key, a, c) {
            Some(at) => at,
            None => {
                assert(mount_entries(s@, all, k as int, single) is None);
                return false;
            },
        };
        let id = text_in(source, s, id_at.0, id_at.1);
        let fitted: Vec<String> = if single {
            let mut one: Vec<String> = Vec::new();
            one.push(id.clone());
            one
        } else {
            match raw_value(s, &weapons_key, a, c) {
                Some((x, y)) => {
                    let l = skip_char(s, '[', x, y);
                    let r = back_char(s, ']', l, y);
                    let words = word_list(s, l, r);
                    assert(ranges_within(words@, s@.len() as int));
                    strings_of(source, s, &words)
                },
                None => Vec::new(),
            }
        };
        let ghost weapons = if single {
            seq![id@]
        } else {
            array_words(s@, "weapons"@, a as int, c as int)
        };
        assert(texts(fitted@) =~= weapons);
        let quantity: u64 = match number_value(s, &quantity_key, a, c, 0, 0xffff_ffff_ffff_ffffi128) {
            Some(q) => q as u64,
            None => 1,
        };
        assert(quantity == fitted_count(s@, (a as int, c as int)));
        let ghost before = mounts@;
        let mut j: u64 = 0;
        while j < quantity
            invariant
                j <= quantity,
                texts(fitted@) == weapons,
                mounts@.len() == before.len() + j,
                mounts@.take(before.len() as int) == before,
                forall|q: int|
                    before.len() <= q < mounts@.len() ==> (#[trigger] mounts@[q]).mount_id@ == id@
                        && texts(mounts@[q].weapons@) == weapons && mounts@[q].quantity == 1,
            decreases quantity - j,
        {
            let copy = ShipWeaponMountSpec { mount_id: id.clone(), weapons: copy_texts(&fitted), quantity: 1 };
            mounts.push(copy);
            j = j + 1;
        }
        proof {
            let entry = (id@, weapons);
            assert(mount_views(mounts@).skip(start.len() as int) =~= mount_views(before).skip(
                start.len() as int,
            ) + Seq::new(quantity as nat, |i: int| entry)) by {
                assert forall|q: int| before.len() <= q < mounts@.len() implies mount_views(mounts@)[q]
                    == entry by {
                    assert(mounts@[q].mount_id@ == id@);
                }
                assert forall|q: int| 0 <= q < before.len() implies mount_views(mounts@)[q]
                    == mount_views(before)[q] by {
                    assert(mounts@.take(before.len() as int)[q] == before[q]);
                }
            }
            assert(mounts@.take(start.len() as int) =~= start) by {
                assert forall|q: int| 0 <= q < start.len() implies mounts@[q] == start[q] by {
                    assert(mounts@.take(before.len() as int)[q] == before[q]);
                    assert(before.take(start.len() as int)[q] == start[q]);
                }
            }
            if single_mounts(start) {
                assert forall|q: int| 0 <= q < mounts@.len() implies (#[trigger] mounts@[q]).quantity
                    == 1 by {
                    if q < before.len() {
                        assert(mounts@.take(before.len() as int)[q] == before[q]);
                    }
                }
            }
        }
        k = k + 1;
    }
    proof {
        assert(mount_views(mounts@) =~= mount_views(start) + mount_views(mounts@).skip(
            start.len() as int,
        )) by {
            assert forall|q: int| 0 <= q < start.len() implies mount_views(mounts@)[q]
                == mount_views(start)[q] by {
                assert(mounts@.take(start.len() as int)[q] == start[q]);
            }
        }
    }
    true
}


// ---------------------------------------------------------------------------
// Ammunition, screens and armor.

/// What the tables from the `k`th on say of ammunition: each table with an
/// id and a quantity gives the id and the quantity, a quantity beyond
/// `u32` counting as `u32::MAX`.
pub open spec fn ammunition_entries(s: Seq<char>, tables: Seq<(int, int)>, k: int) -> Seq<
    (Seq<char>, u32),
>
    decreases tables.len() - k,
{
    if k < 0 || k >= tables.len() {
        Seq::empty()
    } else {
        let t = tables[k];
        let rest = ammunition_entries(s, tables, k + 1);
        match text_from(s, "id"@, t.0, t.1) {
            Some(at) => match number_from(s, "quantity"@, t.0, t.1, 0, u64::MAX as int) {
                Some(q) => seq![
                    (s.subrange(at.0, at.1), if q > u32::MAX {
                        u32::MAX
                    } else {
                        q as u32
                    }),
                ] + rest,
                None => rest,
            },
            None => rest,
        }
    }
}

/// The ids of the tables from the `k`th on that have one.
pub open spec fn table_ids(s: Seq<char>, tables: Seq<(int, int)>, k: int) -> Seq<Seq<char>>
    decreases tables.len() - k,
{
    if k < 0 || k >= tables.len() {
        Seq::empty()
    } else {
        let t = tables[k];
        let rest = table_ids(s, tables, k + 1);
        match text_from(s, "id"@, t.0, t.1) {
            Some(at) => seq![s.subrange(at.0, at.1)] + rest,
            None => rest,
        }
    }
}

pub open spec fn ammunition_views(lots: Seq<ShipAmmunitionSpec>) -> Seq<(Seq<char>, u32)> {
    lots.map_values(|a: ShipAmmunitionSpec| (a.ammunition_id@, a.quantity))
}

/// The armor points of a ship's record: the points of its armor table, or
/// else its `armor_points`, or else none; a value beyond `u16` counts as
/// `u16::MAX`.
pub open spec fn armor_spec(s: Seq<char>) -> u16 {
    let m = next_pattern(s, "[armor]"@, 0);
    let from_table = if m < s.len() {
        let t = cut_table(s, (m + "[armor]"@.len(), s.len() as int));
        number_from(s, "points"@, t.0, t.1, 0, u64::MAX as int)
    } else {
        None
    };
    let points = match from_table {
        Some(v) => v,
        None => match number_from(s, "armor_points"@, 0, s.len() as int, 0, u64::MAX as int) {
            Some(v) => v,
            None => 0,
        },
    };
    if points > u16::MAX {
        u16::MAX
    } else {
        points as u16
    }
}

fn ammunition_of(source: &str, s: &Vec<char>) -> (r: Vec<ShipAmmunitionSpec>)
    requires
        s@ == source@,
    ensures
        ammunition_views(r@) == ammunition_entries(s@, cut_tables(s@, "[[ammunition]]"@), 0),
{
    let header = chars_of("[[ammunition]]");
    proof {
        reveal_strlit("[[ammunition]]");
    }
    let tables = table_list(s, &header);
    let ghost all = cut_tables(s@, "[[ammunition]]"@);
    let id_key = chars_of("id");
    let quantity_key = chars_of("quantity");
    let mut out: Vec<ShipAmmunitionSpec> = Vec::new();
    let mut k: usize = 0;
    while k < tables.len()
        invariant
            s@ == source@,
            int_ranges(tables@) == all,
            ranges_within(tables@, s@.len() as int),
            k <= tables@.len(),
            id_key@ == "id"@,
            quantity_key@ == "quantity"@,
            ammunition_views(out@) + ammunition_entries(s@, all, k as int) == ammunition_entries(
                s@,
                all,
                0,
            ),
        decreases tables@.len() - k,
    {
        let (a, c) = tables[k];
        assert(all[k as int] == (a as int, c as int));
        let ghost before = out@;
        match text_value(s, &id_key, a, c) {
            Some((x, y)) => match number_value(s, &quantity_key, a, c, 0, 0xffff_ffff_ffff_ffffi128) {
                Some(q) => {
                    let quantity: u32 = if q > 0xffff_ffffi128 {
                        0xffff_ffff
                    } else {
                        q as u32
                    };
                    out.push(ShipAmmunitionSpec { ammunition_id: text_in(source, s, x, y), quantity });
                    assert(ammunition_views(out@) =~= ammunition_views(before).push(
                        (s@.subrange(x as int, y as int), quantity),
                    ));
                },
                None => {},
            },
            None => {},
        }
        assert(ammunition_views(before) + ammunition_entries(s@, all, k as int) =~= ammunition_views(
            out@,
        ) + ammunition_entries(s@, all, k + 1));
        k = k + 1;
    }
    out
}

fn ids_of(source: &str, s: &Vec<char>, header: &str) -> (r: Vec<String>)
    requires
        s@ == source@,
        header@.len() > 0,
    ensures
        texts(r@) == table_ids(s@, cut_tables(s@, header@), 0),
{
    let header_chars = chars_of(header);
    let tables = table_list(s, &header_chars);
    let ghost all = cut_tables(s@, header@);
    let id_key = chars_of("id");
    let mut out: Vec<String> = Vec::new();
    let mut k: usize = 0;
    while k < tables.len()
        invariant
            s@ == source@,
            int_ranges(tables@) == all,
            ranges_within(tables@, s@.len() as int),
            k <= tables@.len(),
            id_key@ == "id"@,
            texts(out@) + table_ids(s@, all, k as int) == table_ids(s@, all, 0),
        decreases tables@.len() - k,
    {
        let (a, c) = tables[k];
        assert(all[k as int] == (a as int, c as int));
        let ghost before = out@;
        match text_value(s, &id_key, a, c) {
            Some((x, y)) => {
                out.push(text_in(source, s, x, y));
                assert(texts(out@) =~= texts(before).push(s@.subrange(x as int, y as int)));
            },
            None => {},
        }
        assert(texts(before) + table_ids(s@, all, k as int) =~= texts(out@) + table_ids(
            s@,
            all,
            k + 1,
        ));
        k = k + 1;
    }
    out
}

fn armor_points(s: &Vec<char>) -> (r: u16)
    ensures
        r == armor_spec(s@),
{
    let header = chars_of("[armor]");
    proof {
        reveal_strlit("[armor]");
    }
    let n = s.len();
    let m = find_pattern(s, &header, 0);
    proof {
        lemma_next_pattern(s@, header@, 0);
    }
    let from_table = if m < n {
        let start = m + header.len();
        let end = find_pattern_before(s, &chars_of("\n["), start, n);
        proof {
            reveal_strlit("\n[");
        }
        number_value(s, &chars_of("points"), start, end, 0, 0xffff_ffff_ffff_ffffi128)
    } else {
        None
    };
    let points = match from_table {
        Some(v) => v,
        None => match number_value(s, &chars_of("armor_points"), 0, n, 0, 0xffff_ffff_ffff_ffffi128) {
            Some(v) => v,
            None => 0,
        },
    };
    if points > 0xffff {
        0xffff
    } else {
        points as u16
    }
}

// ---------------------------------------------------------------------------
// The record.

/// Every mount, barbette and bay of the record, in that order, each
/// repeated by its quantity; nothing where one of them has no id.
pub open spec fn weapon_mounts_spec(s: Seq<char>) -> Option<Seq<(Seq<char>, Seq<Seq<char>>)>> {
    match mount_entries(s, cut_tables(s, "[[mounts]]"@), 0, false) {
        None => None,
        Some(mounts) => match mount_entries(s, cut_tables(s, "[[barbettes]]"@), 0, true) {
            None => None,
            Some(barbettes) => match mount_entries(s, cut_tables(s, "[[bays]]"@), 0, true) {
                None => None,
                Some(bays) => Some(mounts + barbettes + bays),
            },
        },
    }
}

/// The combat-relevant equipment of a ship's catalog record: its armor,
/// its weapon mounts, barbettes and bays, each fitted once per unit of its
/// quantity, its ammunition and its screens.  Nothing where a mount,
/// barbette or bay table has no id.
pub fn ship_combat_spec(source: &str) -> (r: Option<ShipCombatSpec>)
    ensures
        match weapon_mounts_spec(source@) {
            None => r is None,
            Some(entries) => r matches Some(spec) && {
                &&& spec.armor_points == armor_spec(source@)
                &&& mount_views(spec.weapons@) == entries
                &&& single_mounts(spec.weapons@)
                &&& ammunition_views(spec.ammunition@) == ammunition_entries(
                    source@,
                    cut_tables(source@, "[[ammunition]]"@),
                    0,
                )
                &&& texts(spec.screens@) == table_ids(source@, cut_tables(source@, "[[screens]]"@), 0)
            },
        },
{
    let s = chars_of(source);
    proof {
        reveal_strlit("[[mounts]]");
        reveal_strlit("[[barbettes]]");
        reveal_strlit("[[bays]]");
        reveal_strlit("[[screens]]");
    }
    let armor = armor_points(&s);
    let mut weapons: Vec<ShipWeaponMountSpec> = Vec::new();
    assert(single_mounts(weapons@));
    if !fit_mounts(source, &s, "[[mounts]]", false, &mut weapons) {
        return None;
    }
    if !fit_mounts(source, &s, "[[barbettes]]", true, &mut weapons) {
        return None;
    }
    if !fit_mounts(source, &s, "[[bays]]", true, &mut weapons) {
        return None;
    }
    let ammunition = ammunition_of(source, &s);
    let screens = ids_of(source, &s, "[[screens]]");
    Some(ShipCombatSpec { armor_points: armor, weapons, ammunition, screens })
}

/// The electronics DM of a ship's record, by its `electronics` grade;
/// nothing for a grade the rules do not know.
pub open spec fn electronics_dm_spec(s: Seq<char>) -> Option<i8> {
    match text_from(s, "electronics"@, 0, s.len() as int) {
        Some(at) => {
            let grade = s.subrange(at.0, at.1);
            if grade == "standard"@ {
                Some(-4i8)
            } else if grade == "basic-civilian"@ {
                Some(-2i8)
            } else if grade == "basic-military"@ {
                Some(0i8)
            } else if grade == "advanced"@ {
                Some(1i8)
            } else if grade == "very-advanced"@ {
                Some(2i8)
            } else {
                None
            }
        },
        None => None,
    }
}

pub fn ship_electronics_dm(source: &str) -> (r: Option<i8>)
    requires
        text_from(source@, "electronics"@, 0, source@.len() as int) is Some,
    ensures
        r == electronics_dm_spec(source@),
{
    let s = chars_of(source);
    let at = match text_value(&s, &chars_of("electronics"), 0, s.len()) {
        Some(at) => at,
        None => {
            return None;
        },
    };
    let grades = [
        chars_of("standard"),
        chars_of("basic-civilian"),
        chars_of("basic-military"),
        chars_of("advanced"),
        chars_of("very-advanced"),
    ];
    if range_equals(&s, at.0, at.1, &grades[0]) {
        Some(-4)
    } else if range_equals(&s, at.0, at.1, &grades[1]) {
        Some(-2)
    } else if range_equals(&s, at.0, at.1, &grades[2]) {
        Some(0)
    } else if range_equals(&s, at.0, at.1, &grades[3]) {
        Some(1)
    } else if range_equals(&s, at.0, at.1, &grades[4]) {
        Some(2)
    } else {
        None
    }
}

/// The revision of a ship's record: its `revision`, or one.
pub fn ship_catalog_revision(source: &str) -> (r: u64)
    ensures
        r == match number_from(source@, "revision"@, 0, source@.len() as int, 0, u64::MAX as int) {
            Some(v) => v as u64,
            None => 1,
        },
{
    let s = chars_of(source);
    match number_value(&s, &chars_of("revision"), 0, s.len(), 0, 0xffff_ffff_ffff_ffffi128) {
        Some(v) => v as u64,
        None => 1,
    }
}

} // verus!
