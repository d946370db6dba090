//! Fixed-width integer helpers shared by the deterministic generators.

use vstd::prelude::*;

verus! {

/// Rotation of a 64-bit word to the left by `shift % 64` bits.
pub open spec fn rotl_spec(x: u64, shift: u32) -> u64 {
    let k = shift % 64;
    if k == 0 {
        x
    } else {
        (x << k) | (x >> ((64 - k) as u32))
    }
}

/// Rotation of a 64-bit word to the right by `shift % 64` bits.
pub open spec fn rotr_spec(x: u64, shift: u32) -> u64 {
    let k = shift % 64;
    if k == 0 {
        x
    } else {
        (x >> k) | (x << ((64 - k) as u32))
    }
}

pub fn rotl(x: u64, shift: u32) -> (r: u64)
    ensures
        r == rotl_spec(x, shift),
{
    let k = shift % 64;
    if k == 0 {
        x
    } else {
        (x << k) | (x >> (64 - k))
    }
}

pub fn rotr(x: u64, shift: u32) -> (r: u64)
    ensures
        r == rotr_spec(x, shift),
{
    let k = shift % 64;
    if k == 0 {
        x
    } else {
        (x >> k) | (x << (64 - k))
    }
}

pub open spec fn wmul(x: u64, y: u64) -> u64 {
    vstd::wrapping::u64_specs::wrapping_mul(x, y)
}

pub open spec fn wadd(x: u64, y: u64) -> u64 {
    vstd::wrapping::u64_specs::wrapping_add(x, y)
}

/// The SplitMix64 finaliser without the additive step, as the combat and
/// career rules use it.
pub open spec fn mix64_spec(value: u64) -> u64 {
    let a = value ^ (value >> 30u64);
    let b = wmul(a, 0xbf58_476d_1ce4_e5b9u64);
    let c = b ^ (b >> 27u64);
    let d = wmul(c, 0x94d0_49bb_1331_11ebu64);
    d ^ (d >> 31u64)
}

pub fn mix64(value: u64) -> (r: u64)
    ensures
        r == mix64_spec(value),
{
    let mut v = value;
    v = v ^ (v >> 30u64);
    v = v.wrapping_mul(0xbf58_476d_1ce4_e5b9u64);
    v = v ^ (v >> 27u64);
    v = v.wrapping_mul(0x94d0_49bb_1331_11ebu64);
    v ^ (v >> 31u64)
}

/// Multiplication that stops at `u64::MAX`.
pub open spec fn sat_mul_spec(x: u64, y: u64) -> u64 {
    if x * y > u64::MAX {
        u64::MAX
    } else {
        (x * y) as u64
    }
}

pub fn sat_mul(x: u64, y: u64) -> (r: u64)
    ensures
        r == sat_mul_spec(x, y),
{
    match x.checked_mul(y) {
        Some(v) => v,
        None => u64::MAX,
    }
}

pub open spec fn sat_add_spec(x: u64, y: u64) -> u64 {
    if x + y > u64::MAX {
        u64::MAX
    } else {
        (x + y) as u64
    }
}

/// Big-endian encoding of a 64-bit word.
pub open spec fn be_bytes_spec(x: u64) -> Seq<u8> {
    seq![
        (x >> 56u64) as u8,
        (x >> 48u64) as u8,
        (x >> 40u64) as u8,
        (x >> 32u64) as u8,
        (x >> 24u64) as u8,
        (x >> 16u64) as u8,
        (x >> 8u64) as u8,
        x as u8,
    ]
}

/// Pushes the big-endian encoding of `x` onto `out`.
pub fn push_be_bytes(out: &mut Vec<u8>, x: u64)
    ensures
        final(out)@ == old(out)@ + be_bytes_spec(x),
{
    out.push((x >> 56u64) as u8);
    out.push((x >> 48u64) as u8);
    out.push((x >> 40u64) as u8);
    out.push((x >> 32u64) as u8);
    out.push((x >> 24u64) as u8);
    out.push((x >> 16u64) as u8);
    out.push((x >> 8u64) as u8);
    out.push(x as u8);
    assert(final(out)@ =~= old(out)@ + be_bytes_spec(x));
}

/// The unsigned value of a big-endian byte sequence.
pub open spec fn be_value(s: Seq<u8>) -> nat
    decreases s.len(),
{
    if s.len() == 0 {
        0
    } else {
        be_value(s.drop_last()) * 256 + s.last() as nat
    }
}

pub open spec fn pow256(n: nat) -> nat
    decreases n,
{
    if n == 0 {
        1
    } else {
        pow256((n - 1) as nat) * 256
    }
}

proof fn lemma_be_value_bound(s: Seq<u8>)
    ensures
        be_value(s) < pow256(s.len()),
    decreases s.len(),
{
    if s.len() > 0 {
        lemma_be_value_bound(s.drop_last());
        let p = pow256((s.len() - 1) as nat);
        assert(be_value(s.drop_last()) * 256 + 256 <= p * 256) by (nonlinear_arith)
            requires
                be_value(s.drop_last()) < p,
        ;
    }
}

/// The first eight bytes of `s`, read as a big-endian 64-bit word.
pub open spec fn be_u64_prefix(s: Seq<u8>) -> u64 {
    be_value(s.take(8)) as u64
}

pub fn be_u64_from_prefix(bytes: &[u8; 32]) -> (r: u64)
    ensures
        r == be_u64_prefix(bytes@),
        r as nat == be_value(bytes@.take(8)),
{
    let mut value: u64 = 0;
    let mut i: usize = 0;
    proof {
        lemma_pow256_values();
    }
    while i < 8
        invariant
            i <= 8,
            bytes@.len() == 32,
            value as nat == be_value(bytes@.take(i as int)),
            pow256(7) == 0x100_0000_0000_0000,
            pow256(8) == 0x1_0000_0000_0000_0000,
        decreases 8 - i,
    {
        proof {
            lemma_be_value_bound(bytes@.take(i as int));
            lemma_pow256_mono(i as nat, 7);
            assert(bytes@.take(i + 1).drop_last() =~= bytes@.take(i as int));
        }
        value = value * 256 + bytes[i] as u64;
        i = i + 1;
    }
    proof {
        lemma_be_value_bound(bytes@.take(8));
    }
    value
}

proof fn lemma_pow256_values()
    ensures
        pow256(7) == 0x100_0000_0000_0000,
        pow256(8) == 0x1_0000_0000_0000_0000,
{
    reveal_with_fuel(pow256, 9);
}

proof fn lemma_pow256_mono(a: nat, b: nat)
    requires
        a <= b,
    ensures
        pow256(a) <= pow256(b),
    decreases b,
{
    if a < b {
        lemma_pow256_mono(a, (b - 1) as nat);
    }
}

} // verus!
