//! Persistent spatial-resolution coverage for frontier materialization.
//!
//! Coverage cells and chunks are an internal server index, not a player-facing
//! map. A resolved bit means stellar existence has been decided for the whole
//! cell; it does not mean any particular player knows the result.

use vstd::prelude::*;

verus! {

pub const COVERAGE_CELLS_PER_CHUNK_AXIS: i64 = 32;
pub const COVERAGE_CELLS_PER_CHUNK: usize = 32768;
pub const COVERAGE_BITMAP_BYTES: usize = 4096;
pub const COVERAGE_SAMPLER_VERSION: u16 = 1;

#[derive(Clone, Copy, Debug, PartialEq, Eq, Hash, PartialOrd, Ord)]
pub struct CoverageChunkCoordinate {
    pub x: i64,
    pub y: i64,
    pub z: i64,
}

/// Bit `k` of byte `b`.
pub open spec fn bit(b: u8, k: u8) -> bool {
    (b >> k) & 1u8 == 1u8
}

proof fn lemma_test_bit(b: u8, k: u8)
    requires
        k < 8,
    ensures
        ((b & (1u8 << k)) != 0u8) == bit(b, k),
{
    assert(((b & (1u8 << k)) != 0u8) == ((b >> k) & 1u8 == 1u8)) by (bit_vector)
        requires
            k < 8,
    ;
}

proof fn lemma_set_bit(b: u8, k: u8, j: u8)
    requires
        k < 8,
        j < 8,
    ensures
        bit(b | (1u8 << k), j) == (j == k || bit(b, j)),
{
    assert((((b | (1u8 << k)) >> j) & 1u8 == 1u8) == (j == k || (b >> j) & 1u8 == 1u8))
        by (bit_vector)
        requires
            k < 8,
            j < 8,
    ;
}

proof fn lemma_clear_bit(b: u8, k: u8, j: u8)
    requires
        k < 8,
        j < 8,
    ensures
        bit(b & !(1u8 << k), j) == (j != k && bit(b, j)),
{
    assert((((b & !(1u8 << k)) >> j) & 1u8 == 1u8) == (j != k && (b >> j) & 1u8 == 1u8))
        by (bit_vector)
        requires
            k < 8,
            j < 8,
    ;
}

proof fn lemma_or_bit(a: u8, b: u8, j: u8)
    requires
        j < 8,
    ensures
        bit(a | b, j) == (bit(a, j) || bit(b, j)),
{
    assert((((a | b) >> j) & 1u8 == 1u8) == ((a >> j) & 1u8 == 1u8 || (b >> j) & 1u8 == 1u8))
        by (bit_vector)
        requires
            j < 8,
    ;
}

proof fn lemma_and_not_bit(a: u8, b: u8, j: u8)
    requires
        j < 8,
    ensures
        bit(a & !b, j) == (bit(a, j) && !bit(b, j)),
{
    assert((((a & !b) >> j) & 1u8 == 1u8) == ((a >> j) & 1u8 == 1u8 && !((b >> j) & 1u8 == 1u8)))
        by (bit_vector)
        requires
            j < 8,
    ;
}

proof fn lemma_constant_bits(j: u8)
    requires
        j < 8,
    ensures
        !bit(0u8, j),
        bit(255u8, j),
{
    assert(!((0u8 >> j) & 1u8 == 1u8)) by (bit_vector);
    assert((255u8 >> j) & 1u8 == 1u8) by (bit_vector)
        requires
            j < 8,
    ;
}

proof fn lemma_zero_byte(b: u8)
    ensures
        (b == 0) == (forall|j: u8| j < 8 ==> !bit(b, j)),
{
    if b != 0 {
        assert(b != 0u8 ==> (b >> 0u8) & 1u8 == 1u8 || (b >> 1u8) & 1u8 == 1u8 || (b >> 2u8) & 1u8
            == 1u8 || (b >> 3u8) & 1u8 == 1u8 || (b >> 4u8) & 1u8 == 1u8 || (b >> 5u8) & 1u8 == 1u8
            || (b >> 6u8) & 1u8 == 1u8 || (b >> 7u8) & 1u8 == 1u8) by (bit_vector);
        assert(bit(b, 0) || bit(b, 1) || bit(b, 2) || bit(b, 3) || bit(b, 4) || bit(b, 5) || bit(b, 6)
            || bit(b, 7));
    } else {
        assert forall|j: u8| j < 8 implies !bit(b, j) by {
            lemma_constant_bits(j);
        }
    }
}

proof fn lemma_common_bit(a: u8, b: u8)
    ensures
        ((a & b) != 0) == (exists|j: u8| j < 8 && bit(a, j) && bit(b, j)),
{
    let c = a & b;
    assert forall|j: u8| j < 8 implies bit(c, j) == (bit(a, j) && bit(b, j)) by {
        assert((((a & b) >> j) & 1u8 == 1u8) == ((a >> j) & 1u8 == 1u8 && (b >> j) & 1u8 == 1u8))
            by (bit_vector)
            requires
                j < 8,
        ;
    }
    lemma_zero_byte(c);
}

/// The number of set bits of a byte.
pub open spec fn popcount(b: u8) -> nat {
    (if bit(b, 0) { 1nat } else { 0nat }) + (if bit(b, 1) { 1nat } else { 0nat }) + (if bit(b, 2) {
        1nat
    } else {
        0nat
    }) + (if bit(b, 3) {
        1nat
    } else {
        0nat
    }) + (if bit(b, 4) {
        1nat
    } else {
        0nat
    }) + (if bit(b, 5) {
        1nat
    } else {
        0nat
    }) + (if bit(b, 6) {
        1nat
    } else {
        0nat
    }) + (if bit(b, 7) {
        1nat
    } else {
        0nat
    })
}

/// The number of `true` entries of a sequence.
pub open spec fn count_true(s: Seq<bool>) -> nat
    decreases s.len(),
{
    if s.len() == 0 {
        0
    } else {
        count_true(s.drop_last()) + if s.last() {
            1nat
        } else {
            0nat
        }
    }
}

proof fn lemma_count_true_append(a: Seq<bool>, b: Seq<bool>)
    ensures
        count_true(a + b) == count_true(a) + count_true(b),
    decreases b.len(),
{
    if b.len() > 0 {
        assert((a + b).drop_last() =~= a + b.drop_last());
        lemma_count_true_append(a, b.drop_last());
    } else {
        assert(a + b =~= a);
    }
}

/// The eight bits of a byte, least significant first.
pub open spec fn byte_bits(b: u8) -> Seq<bool> {
    Seq::new(8, |k: int| bit(b, k as u8))
}

proof fn lemma_byte_bits_count(b: u8)
    ensures
        count_true(byte_bits(b)) == popcount(b),
{
    let s = byte_bits(b);
    assert(s.drop_last().drop_last().drop_last().drop_last().drop_last().drop_last().drop_last().drop_last() =~= Seq::<bool>::empty());
    reveal_with_fuel(count_true, 9);
}

/// The cells of a chunk as the bits of its bytes, cell `i` being bit
/// `i % 8` of byte `i / 8`.
pub open spec fn bytes_view(bytes: Seq<u8>) -> Seq<bool> {
    Seq::new((bytes.len() * 8) as nat, |i: int| bit(bytes[i / 8], (i % 8) as u8))
}

proof fn lemma_bytes_view_prefix(bytes: Seq<u8>, n: int)
    requires
        0 <= n < bytes.len(),
    ensures
        bytes_view(bytes.take(n + 1)) =~= bytes_view(bytes.take(n)) + byte_bits(bytes[n]),
{
}

/// The number of set bits across a byte sequence.
pub open spec fn bytes_count(bytes: Seq<u8>) -> nat
    decreases bytes.len(),
{
    if bytes.len() == 0 {
        0
    } else {
        bytes_count(bytes.drop_last()) + popcount(bytes.last())
    }
}

proof fn lemma_bytes_count_view(bytes: Seq<u8>)
    ensures
        bytes_count(bytes) == count_true(bytes_view(bytes)),
    decreases bytes.len(),
{
    if bytes.len() == 0 {
        assert(bytes_view(bytes) =~= Seq::<bool>::empty());
    } else {
        let n = bytes.len() - 1;
        lemma_bytes_count_view(bytes.drop_last());
        assert(bytes.drop_last() =~= bytes.take(n));
        assert(bytes =~= bytes.take(n + 1));
        lemma_bytes_view_prefix(bytes, n);
        lemma_count_true_append(bytes_view(bytes.take(n)), byte_bits(bytes[n]));
        lemma_byte_bits_count(bytes[n]);
    }
}

fn byte_popcount(b: u8) -> (r: u64)
    ensures
        r == popcount(b),
{
    let mut count: u64 = 0;
    let mut k: u8 = 0;
    while k < 8
        invariant
            k <= 8,
            count == (if k > 0 && bit(b, 0) { 1nat } else { 0nat }) + (if k > 1 && bit(b, 1) {
                1nat
            } else {
                0nat
            }) + (if k > 2 && bit(b, 2) {
                1nat
            } else {
                0nat
            }) + (if k > 3 && bit(b, 3) {
                1nat
            } else {
                0nat
            }) + (if k > 4 && bit(b, 4) {
                1nat
            } else {
                0nat
            }) + (if k > 5 && bit(b, 5) {
                1nat
            } else {
                0nat
            }) + (if k > 6 && bit(b, 6) {
                1nat
            } else {
                0nat
            }) + (if k > 7 && bit(b, 7) {
                1nat
            } else {
                0nat
            }),
        decreases 8 - k,
    {
        if (b >> k) & 1 == 1 {
            count = count + 1;
        }
        k = k + 1;
    }
    count
}

pub open spec fn union_bytes(a: Seq<u8>, b: Seq<u8>) -> Seq<u8> {
    Seq::new(a.len(), |j: int| a[j] | b[j])
}

pub open spec fn difference_bytes(a: Seq<u8>, b: Seq<u8>) -> Seq<u8> {
    Seq::new(a.len(), |j: int| a[j] & !b[j])
}

proof fn lemma_union_cells(a: Seq<u8>, b: Seq<u8>)
    requires
        a.len() == b.len(),
    ensures
        forall|c: int|
            0 <= c < a.len() * 8 ==> #[trigger] bytes_view(union_bytes(a, b))[c] == (bytes_view(a)[c]
                || bytes_view(b)[c]),
{
    assert forall|c: int| 0 <= c < a.len() * 8 implies #[trigger] bytes_view(union_bytes(a, b))[c]
        == (bytes_view(a)[c] || bytes_view(b)[c]) by {
        lemma_or_bit(a[c / 8], b[c / 8], (c % 8) as u8);
    }
}

proof fn lemma_difference_cells(a: Seq<u8>, b: Seq<u8>)
    requires
        a.len() == b.len(),
    ensures
        forall|c: int|
            0 <= c < a.len() * 8 ==> #[trigger] bytes_view(difference_bytes(a, b))[c] == (bytes_view(
                a,
            )[c] && !bytes_view(b)[c]),
{
    assert forall|c: int| 0 <= c < a.len() * 8 implies #[trigger] bytes_view(difference_bytes(a, b))[c]
        == (bytes_view(a)[c] && !bytes_view(b)[c]) by {
        lemma_and_not_bit(a[c / 8], b[c / 8], (c % 8) as u8);
    }
}

/// The resolution bits of one 32x32x32-cell chunk.
#[derive(Clone, Debug, PartialEq, Eq)]
pub struct CellBitmap {
    bytes: Box<[u8; 4096]>,
}

impl View for CellBitmap {
    type V = Seq<bool>;

    closed spec fn view(&self) -> Seq<bool> {
        bytes_view(self.bytes@)
    }
}

impl CellBitmap {
    /// The stored bytes.
    pub closed spec fn byte_view(&self) -> Seq<u8> {
        self.bytes@
    }

    pub proof fn lemma_view_len(&self)
        ensures
            self@.len() == 32768,
            self.byte_view().len() == 4096,
            self@ == bytes_view(self.byte_view()),
    {
    }

    pub fn empty() -> (r: Self)
        ensures
            r@.len() == 32768,
            forall|i: int| 0 <= i < 32768 ==> !r@[i],
    {
        let r = Self { bytes: Box::new([0u8; 4096]) };
        assert forall|i: int| 0 <= i < 32768 implies !r@[i] by {
            lemma_constant_bits((i % 8) as u8);
        }
        r
    }

    pub fn from_bytes(bytes: [u8; 4096]) -> (r: Self)
        ensures
            r.byte_view() == bytes@,
            r@ == bytes_view(bytes@),
    {
        Self { bytes: Box::new(bytes) }
    }

    pub fn filled() -> (r: Self)
        ensures
            r@.len() == 32768,
            forall|i: int| 0 <= i < 32768 ==> r@[i],
    {
        let r = Self { bytes: Box::new([255u8; 4096]) };
        assert forall|i: int| 0 <= i < 32768 implies r@[i] by {
            lemma_constant_bits((i % 8) as u8);
        }
        r
    }

    /// A bit-for-bit copy.
    pub fn duplicate(&self) -> (r: Self)
        ensures
            r@ == self@,
            r.byte_view() == self.byte_view(),
    {
        let bytes: [u8; 4096] = *self.bytes;
        Self { bytes: Box::new(bytes) }
    }

    pub fn as_bytes(&self) -> (r: &[u8; 4096])
        ensures
            r@ == self.byte_view(),
    {
        &self.bytes
    }

    pub fn is_empty(&self) -> (r: bool)
        ensures
            r == (forall|i: int| 0 <= i < 32768 ==> !self@[i]),
    {
        let mut i: usize = 0;
        while i < 4096
            invariant
                i <= 4096,
                forall|j: int| 0 <= j < i ==> self.bytes@[j] == 0,
            decreases 4096 - i,
        {
            if self.bytes[i] != 0 {
                proof {
                    lemma_zero_byte(self.bytes@[i as int]);
                    let j = choose|j: u8| j < 8 && bit(self.bytes@[i as int], j);
                    let cell = i * 8 + j;
                    assert(cell / 8 == i && cell % 8 == j);
                    assert(self@[cell as int]);
                }
                return false;
            }
            i = i + 1;
        }
        assert forall|c: int| 0 <= c < 32768 implies !self@[c] by {
            lemma_zero_byte(self.bytes@[c / 8]);
            assert(((c % 8) as u8) < 8);
        }
        true
    }

    pub fn count_ones(&self) -> (r: u64)
        ensures
            r == count_true(self@),
    {
        let mut total: u64 = 0;
        let mut i: usize = 0;
        while i < 4096
            invariant
                i <= 4096,
                total == bytes_count(self.bytes@.take(i as int)),
                total <= 8 * i,
            decreases 4096 - i,
        {
            proof {
                assert(self.bytes@.take(i + 1).drop_last() =~= self.bytes@.take(i as int));
            }
            total = total + byte_popcount(self.bytes[i]);
            i = i + 1;
        }
        proof {
            assert(self.bytes@.take(4096) =~= self.bytes@);
            lemma_bytes_count_view(self.bytes@);
        }
        total
    }

    pub fn contains(&self, bit_index: usize) -> (r: bool)
        requires
            bit_index < 32768,
        ensures
            r == self@[bit_index as int],
    {
        let byte = self.bytes[bit_index / 8];
        let k = (bit_index % 8) as u8;
        proof {
            lemma_test_bit(byte, k);
        }
        byte & (1u8 << k) != 0
    }

    pub fn set(&mut self, bit_index: usize)
        requires
            bit_index < 32768,
        ensures
            final(self)@ == old(self)@.update(bit_index as int, true),
    {
        let index = bit_index / 8;
        let k = (bit_index % 8) as u8;
        let byte = self.bytes[index];
        self.bytes[index] = byte | (1u8 << k);
        proof {
            assert forall|c: int| 0 <= c < 32768 implies self@[c] == old(self)@.update(
                bit_index as int,
                true,
            )[c] by {
                if c / 8 == index {
                    lemma_set_bit(byte, k, (c % 8) as u8);
                }
            }
            assert(self@ =~= old(self)@.update(bit_index as int, true));
        }
    }

    pub fn clear(&mut self, bit_index: usize)
        requires
            bit_index < 32768,
        ensures
            final(self)@ == old(self)@.update(bit_index as int, false),
    {
        let index = bit_index / 8;
        let k = (bit_index % 8) as u8;
        let byte = self.bytes[index];
        self.bytes[index] = byte & !(1u8 << k);
        proof {
            assert forall|c: int| 0 <= c < 32768 implies self@[c] == old(self)@.update(
                bit_index as int,
                false,
            )[c] by {
                if c / 8 == index {
                    lemma_clear_bit(byte, k, (c % 8) as u8);
                }
            }
            assert(self@ =~= old(self)@.update(bit_index as int, false));
        }
    }

    pub fn union_with(&mut self, other: &Self)
        ensures
            final(self)@.len() == 32768,
            forall|c: int| 0 <= c < 32768 ==> #[trigger] final(self)@[c] == (old(self)@[c] || other@[c]),
    {
        let ghost start = self.bytes@;
        let mut i: usize = 0;
        while i < 4096
            invariant
                i <= 4096,
                self.bytes@.len() == 4096,
                start == old(self).bytes@,
                forall|j: int| 0 <= j < i ==> self.bytes@[j] == (start[j] | other.bytes@[j]),
                forall|j: int| i <= j < 4096 ==> self.bytes@[j] == start[j],
            decreases 4096 - i,
        {
            let value = self.bytes[i] | other.bytes[i];
            self.bytes[i] = value;
            i = i + 1;
        }
        assert(self.bytes@ =~= union_bytes(start, other.bytes@));
        proof {
            lemma_union_cells(start, other.bytes@);
        }
    }

    pub fn subtract(&mut self, other: &Self)
        ensures
            final(self)@.len() == 32768,
            forall|c: int| 0 <= c < 32768 ==> #[trigger] final(self)@[c] == (old(self)@[c] && !other@[c]),
    {
        let ghost start = self.bytes@;
        let mut i: usize = 0;
        while i < 4096
            invariant
                i <= 4096,
                self.bytes@.len() == 4096,
                start == old(self).bytes@,
                forall|j: int| 0 <= j < i ==> self.bytes@[j] == (start[j] & !other.bytes@[j]),
                forall|j: int| i <= j < 4096 ==> self.bytes@[j] == start[j],
            decreases 4096 - i,
        {
            let value = self.bytes[i] & !other.bytes[i];
            self.bytes[i] = value;
            i = i + 1;
        }
        assert(self.bytes@ =~= difference_bytes(start, other.bytes@));
        proof {
            lemma_difference_cells(start, other.bytes@);
        }
    }

    pub fn intersects(&self, other: &Self) -> (r: bool)
        ensures
            r == (exists|c: int| 0 <= c < 32768 && self@[c] && other@[c]),
    {
        let mut i: usize = 0;
        while i < 4096
            invariant
                i <= 4096,
                forall|j: int| 0 <= j < i ==> (self.bytes@[j] & other.bytes@[j]) == 0,
            decreases 4096 - i,
        {
            if self.bytes[i] & other.bytes[i] != 0 {
                proof {
                    lemma_common_bit(self.bytes@[i as int], other.bytes@[i as int]);
                    let j = choose|j: u8| j < 8 && bit(self.bytes@[i as int], j) && bit(
                        other.bytes@[i as int],
                        j,
                    );
                    let cell = i * 8 + j;
                    assert(cell / 8 == i && cell % 8 == j);
                    assert(self@[cell as int] && other@[cell as int]);
                }
                return true;
            }
            i = i + 1;
        }
        assert forall|c: int| 0 <= c < 32768 implies !(self@[c] && other@[c]) by {
            lemma_common_bit(self.bytes@[c / 8], other.bytes@[c / 8]);
            assert(((c % 8) as u8) < 8);
        }
        false
    }
}

#[derive(Clone, Debug, PartialEq, Eq)]
pub struct CoverageLayer {
    pub stellar_distribution_version: u16,
    pub sampler_version: u16,
    pub resolved_cells: CellBitmap,
}

/// Whether layer `a` sorts no later than layer `b` by
/// (stellar distribution version, sampler version).
pub open spec fn layer_le(a: CoverageLayer, b: CoverageLayer) -> bool {
    a.stellar_distribution_version < b.stellar_distribution_version || (
    a.stellar_distribution_version == b.stellar_distribution_version && a.sampler_version
        <= b.sampler_version)
}

/// No cell is resolved by two layers.
pub open spec fn layers_disjoint(layers: Seq<CoverageLayer>) -> bool {
    forall|i: int, j: int, c: int|
        0 <= i < layers.len() && 0 <= j < layers.len() && i != j && 0 <= c < 32768 ==> !(
        #[trigger] layers[i].resolved_cells@[c] && #[trigger] layers[j].resolved_cells@[c])
}

/// The two layers were resolved with the same versions.
/// Layer `i` is the first with the given versions.
pub open spec fn first_keyed(layers: Seq<CoverageLayer>, stellar_distribution_version: u16, sampler_version: u16, i: int) -> bool {
    &&& 0 <= i < layers.len()
    &&& layers[i].stellar_distribution_version == stellar_distribution_version
    &&& layers[i].sampler_version == sampler_version
    &&& forall|j: int|
        0 <= j < i ==> !((#[trigger] layers[j]).stellar_distribution_version == stellar_distribution_version
            && layers[j].sampler_version == sampler_version)
}

pub open spec fn same_versions(a: CoverageLayer, b: CoverageLayer) -> bool {
    a.stellar_distribution_version == b.stellar_distribution_version && a.sampler_version
        == b.sampler_version
}

/// `after` holds the layers of `before`, `after[k]` being `before[perm[k]]`,
/// each position of `before` used once.
pub open spec fn rearranges(perm: Seq<int>, before: Seq<CoverageLayer>, after: Seq<CoverageLayer>) -> bool {
    &&& perm.len() == after.len()
    &&& before.len() == after.len()
    &&& forall|k: int| 0 <= k < perm.len() ==> 0 <= #[trigger] perm[k] < before.len() && after[k] == before[perm[k]]
    &&& forall|a: int, b: int| 0 <= a < perm.len() && 0 <= b < perm.len() && a != b ==> #[trigger] perm[a] != #[trigger] perm[b]
}

/// `a`'s versions come strictly before `b`'s.
pub open spec fn layer_lt(a: CoverageLayer, b: CoverageLayer) -> bool {
    a.stellar_distribution_version < b.stellar_distribution_version || (
    a.stellar_distribution_version == b.stellar_distribution_version && a.sampler_version
        < b.sampler_version)
}

/// The layers' version keys are distinct and ascending.
pub open spec fn keys_ascending(layers: Seq<CoverageLayer>) -> bool {
    forall|i: int, j: int| 0 <= i < j < layers.len() ==> layer_lt(#[trigger] layers[i], #[trigger] layers[j])
}

pub open spec fn layers_sorted(layers: Seq<CoverageLayer>) -> bool {
    forall|i: int, j: int| 0 <= i < j < layers.len() ==> layer_le(layers[i], layers[j])
}

/// The cells resolved by any of the layers.
pub open spec fn resolved_view(layers: Seq<CoverageLayer>) -> Seq<bool> {
    Seq::new(
        32768,
        |c: int| exists|i: int| 0 <= i < layers.len() && #[trigger] layers[i].resolved_cells@[c],
    )
}

#[derive(Clone, Debug, Default, PartialEq, Eq)]
pub struct CoverageChunk {
    pub layers: Vec<CoverageLayer>,
}

fn layer_key_le(a: &CoverageLayer, b: &CoverageLayer) -> (r: bool)
    ensures
        r == layer_le(*a, *b),
{
    a.stellar_distribution_version < b.stellar_distribution_version || (
    a.stellar_distribution_version == b.stellar_distribution_version && a.sampler_version
        <= b.sampler_version)
}

/// Stable insertion sort of the layers by version pair.
fn sort_layers(layers: &mut Vec<CoverageLayer>)
    ensures
        layers_sorted(final(layers)@),
        final(layers)@.to_multiset() == old(layers)@.to_multiset(),
        final(layers)@.len() == old(layers)@.len(),
        exists|perm: Seq<int>| rearranges(perm, old(layers)@, final(layers)@),
{
    broadcast use vstd::seq_lib::group_to_multiset_ensures;
    let n = layers.len();
    let mut i: usize = 1;
    let ghost mut perm: Seq<int> = Seq::new(n as nat, |k: int| k);
    assert(rearranges(perm, old(layers)@, layers@));
    if n == 0 {
        return;
    }
    while i < n
        invariant
            1 <= i <= n,
            n == layers@.len(),
            layers_sorted(layers@.take(i as int)),
            layers@.to_multiset() == old(layers)@.to_multiset(),
            rearranges(perm, old(layers)@, layers@),
        decreases n - i,
    {
        let mut j: usize = i;
        while j > 0 && !layer_key_le(&layers[j - 1], &layers[i])
            invariant
                j <= i < n,
                n == layers@.len(),
                layers_sorted(layers@.take(i as int)),
                forall|k: int| j <= k < i ==> !layer_le(layers@[k], layers@[i as int]),
            decreases j,
        {
            j = j - 1;
        }
        let ghost before = layers@;
        let item = layers.remove(i);
        layers.insert(j, item);
        proof {
            let old_perm = perm;
            perm = old_perm.remove(i as int).insert(j as int, old_perm[i as int]);
            assert forall|k: int| 0 <= k < perm.len() implies 0 <= #[trigger] perm[k] < old(
                layers,
            )@.len() && layers@[k] == old(layers)@[perm[k]] by {
                if k < j {
                } else if k == j {
                } else if k <= i {
                    assert(perm[k] == old_perm[k - 1]);
                } else {
                    assert(perm[k] == old_perm[k]);
                }
            }
            assert forall|a: int, b: int|
                0 <= a < perm.len() && 0 <= b < perm.len() && a != b implies #[trigger] perm[a]
                != #[trigger] perm[b] by {
                let pa = if a < j {
                    a
                } else if a == j {
                    i as int
                } else if a <= i {
                    a - 1
                } else {
                    a
                };
                let pb = if b < j {
                    b
                } else if b == j {
                    i as int
                } else if b <= i {
                    b - 1
                } else {
                    b
                };
                assert(perm[a] == old_perm[pa]);
                assert(perm[b] == old_perm[pb]);
            }
            assert(rearranges(perm, old(layers)@, layers@));
            broadcast use vstd::multiset::group_multiset_axioms;
            assert(layers@ =~= before.remove(i as int).insert(j as int, item));
            assert(item == before[i as int]);
            vstd::seq_lib::to_multiset_remove(before, i as int);
            vstd::seq_lib::to_multiset_insert(before.remove(i as int), j as int, item);
            assert(before.contains(item));
            before.to_multiset_ensures();
            assert(before.to_multiset().count(item) > 0);
            assert(before.to_multiset().remove(item).insert(item) =~= before.to_multiset());
            assert forall|a: int, b: int| 0 <= a < b < i + 1 implies #[trigger] layer_le(
                layers@.take(i + 1)[a],
                layers@.take(i + 1)[b],
            ) by {
                let s = layers@;
                if b < j {
                    assert(before.take(i as int)[a] == s[a] && before.take(i as int)[b] == s[b]);
                } else if b == j {
                    if j > 0 {
                        assert(layer_le(before[j - 1], item));
                        assert(before.take(i as int)[a] == s[a]);
                        assert(layer_le(before.take(i as int)[a], before.take(i as int)[j - 1]) || a
                            == j - 1);
                        layer_le_transitive(s[a], before[j - 1], item);
                    }
                } else if a == j {
                    assert(s[b] == before[b - 1]);
                    assert(!layer_le(before[b - 1], item));
                    layer_le_total(before[b - 1], item);
                } else if a < j {
                    assert(s[b] == before[b - 1]);
                    assert(s[a] == before[a]);
                    assert(layer_le(before.take(i as int)[a], before.take(i as int)[b - 1]));
                } else {
                    assert(s[b] == before[b - 1]);
                    assert(s[a] == before[a - 1]);
                    assert(layer_le(before.take(i as int)[a - 1], before.take(i as int)[b - 1]));
                }
            }
        }
        i = i + 1;
    }
    assert(layers@.take(n as int) =~= layers@);
}

proof fn layer_le_transitive(a: CoverageLayer, b: CoverageLayer, c: CoverageLayer)
    requires
        layer_le(a, b),
        layer_le(b, c),
    ensures
        layer_le(a, c),
{
}

proof fn layer_le_total(a: CoverageLayer, b: CoverageLayer)
    ensures
        layer_le(a, b) || layer_le(b, a),
{
}

impl CoverageChunk {
    pub fn resolved_cells(&self) -> (r: CellBitmap)
        ensures
            r@ == resolved_view(self.layers@),
    {
        let mut result = CellBitmap::empty();
        let mut k: usize = 0;
        while k < self.layers.len()
            invariant
                k <= self.layers@.len(),
                result@.len() == 32768,
                forall|c: int|
                    0 <= c < 32768 ==> #[trigger] result@[c] == (exists|i: int|
                        0 <= i < k && #[trigger] self.layers@[i].resolved_cells@[c]),
            decreases self.layers@.len() - k,
        {
            let ghost prior = result@;
            result.union_with(&self.layers[k].resolved_cells);
            k = k + 1;
            proof {
                assert forall|c: int| 0 <= c < 32768 implies #[trigger] result@[c] == (exists|i: int|
                    0 <= i < k && #[trigger] self.layers@[i].resolved_cells@[c]) by {
                    if self.layers@[k - 1].resolved_cells@[c] {
                        assert(result@[c]);
                    }
                    if result@[c] && !prior[c] {
                        assert(self.layers@[k - 1].resolved_cells@[c]);
                    }
                }
            }
        }
        proof {
            result.lemma_view_len();
        }
        assert(result@ =~= resolved_view(self.layers@));
        result
    }

    /// Add only cells that have not been resolved by an earlier layer.
    /// Returns the number of cells added.
    pub fn add_resolution(
        &mut self,
        stellar_distribution_version: u16,
        sampler_version: u16,
        requested: &CellBitmap,
    ) -> (added: u64)
        ensures
            added == count_true(
                Seq::new(
                    32768,
                    |c: int| requested@[c] && !resolved_view(old(self).layers@)[c],
                ),
            ),
            forall|c: int|
                0 <= c < 32768 ==> #[trigger] resolved_view(final(self).layers@)[c] == (
                resolved_view(old(self).layers@)[c] || requested@[c]),
            added == 0 ==> final(self).layers@ == old(self).layers@,
            added != 0 && (exists|i: int|
                0 <= i < old(self).layers@.len()
                    && old(self).layers@[i].stellar_distribution_version
                    == stellar_distribution_version && old(self).layers@[i].sampler_version
                    == sampler_version) ==> final(self).layers@.len() == old(self).layers@.len(),
            added != 0 && !(exists|i: int|
                0 <= i < old(self).layers@.len()
                    && old(self).layers@[i].stellar_distribution_version
                    == stellar_distribution_version && old(self).layers@[i].sampler_version
                    == sampler_version) ==> final(self).layers@.len() == old(self).layers@.len() + 1
                && layers_sorted(final(self).layers@),
            layers_disjoint(old(self).layers@) ==> layers_disjoint(final(self).layers@),
            keys_ascending(old(self).layers@) ==> keys_ascending(final(self).layers@),
            added != 0 && (exists|i: int|
                0 <= i < old(self).layers@.len()
                    && old(self).layers@[i].stellar_distribution_version
                    == stellar_distribution_version && old(self).layers@[i].sampler_version
                    == sampler_version) ==> exists|i: int|
                #[trigger] first_keyed(old(self).layers@, stellar_distribution_version, sampler_version, i) && {
                    &&& final(self).layers@.len() == old(self).layers@.len()
                    &&& forall|j: int|
                        0 <= j < old(self).layers@.len() && j != i ==> #[trigger] final(self).layers@[j]
                            == old(self).layers@[j]
                    &&& same_versions(final(self).layers@[i], old(self).layers@[i])
                    &&& forall|c: int|
                        0 <= c < 32768 ==> #[trigger] final(self).layers@[i].resolved_cells@[c] == (
                        old(self).layers@[i].resolved_cells@[c] || (requested@[c] && !resolved_view(
                            old(self).layers@,
                        )[c]))
                },
            added != 0 && !(exists|i: int|
                0 <= i < old(self).layers@.len()
                    && old(self).layers@[i].stellar_distribution_version
                    == stellar_distribution_version && old(self).layers@[i].sampler_version
                    == sampler_version) ==> exists|k: int|
                0 <= k < final(self).layers@.len()
                    && (#[trigger] final(self).layers@[k]).stellar_distribution_version
                    == stellar_distribution_version && final(self).layers@[k].sampler_version
                    == sampler_version && forall|c: int|
                    0 <= c < 32768 ==> #[trigger] final(self).layers@[k].resolved_cells@[c] == (
                    requested@[c] && !resolved_view(old(self).layers@)[c]),
            forall|i: int, c: int|
                0 <= i < old(self).layers@.len() && 0 <= c < 32768
                    && #[trigger] old(self).layers@[i].resolved_cells@[c] ==> exists|k: int|
                    0 <= k < final(self).layers@.len() && final(self).layers@[k].resolved_cells@[c]
                        && same_versions(final(self).layers@[k], old(self).layers@[i]),
            forall|k: int, c: int|
                0 <= k < final(self).layers@.len() && 0 <= c < 32768
                    && #[trigger] final(self).layers@[k].resolved_cells@[c]
                    && !resolved_view(old(self).layers@)[c] ==> final(self).layers@[k].stellar_distribution_version
                    == stellar_distribution_version && final(self).layers@[k].sampler_version
                    == sampler_version,
    {
        let resolved = self.resolved_cells();
        let mut fresh = requested.duplicate();
        fresh.subtract(&resolved);
        let added = fresh.count_ones();
        proof {
            assert(fresh@ =~= Seq::new(
                32768,
                |c: int| requested@[c] && !resolved_view(old(self).layers@)[c],
            ));
        }
        if added == 0 {
            proof {
                assert forall|c: int| 0 <= c < 32768 implies #[trigger] resolved_view(
                    self.layers@,
                )[c] == (resolved_view(old(self).layers@)[c] || requested@[c]) by {
                    if requested@[c] && !resolved_view(old(self).layers@)[c] {
                        lemma_count_positive(fresh@, c);
                    }
                }
                assert forall|i: int, c: int|
                    0 <= i < old(self).layers@.len() && 0 <= c < 32768
                        && #[trigger] old(self).layers@[i].resolved_cells@[c] implies exists|k: int|
                        0 <= k < self.layers@.len() && self.layers@[k].resolved_cells@[c]
                            && same_versions(self.layers@[k], old(self).layers@[i]) by {
                    assert(self.layers@[i].resolved_cells@[c]);
                }
                assert forall|k: int, c: int|
                    0 <= k < self.layers@.len() && 0 <= c < 32768
                        && #[trigger] self.layers@[k].resolved_cells@[c] implies resolved_view(
                        old(self).layers@,
                    )[c] by {
                    assert(old(self).layers@[k].resolved_cells@[c]);
                }
            }
            return 0;
        }
        let ghost old_layers = self.layers@;
        let mut index: usize = 0;
        let mut found = false;
        while index < self.layers.len() && !found
            invariant
                index <= self.layers@.len(),
                self.layers@ == old_layers,
                found ==> index < old_layers.len()
                    && old_layers[index as int].stellar_distribution_version
                    == stellar_distribution_version && old_layers[index as int].sampler_version
                    == sampler_version,
                forall|i: int|
                    0 <= i < index ==> !(#[trigger] old_layers[i].stellar_distribution_version
                        == stellar_distribution_version && old_layers[i].sampler_version
                        == sampler_version),
            decreases self.layers@.len() - index + (if found { 0int } else { 1int }),
        {
            if self.layers[index].stellar_distribution_version == stellar_distribution_version
                && self.layers[index].sampler_version == sampler_version {
                found = true;
            } else {
                index = index + 1;
            }
        }
        if found {
            let mut layer = self.layers.remove(index);
            layer.resolved_cells.union_with(&fresh);
            self.layers.insert(index, layer);
            proof {
                assert(old_layers[index as int].stellar_distribution_version
                    == stellar_distribution_version && old_layers[index as int].sampler_version
                    == sampler_version);
                assert forall|c: int| 0 <= c < 32768 implies #[trigger] resolved_view(
                    self.layers@,
                )[c] == (resolved_view(old_layers)[c] || requested@[c]) by {
                    let target = self.layers@[index as int];
                    if requested@[c] && !resolved_view(old_layers)[c] {
                        assert(target.resolved_cells@[c]);
                    }
                    if resolved_view(old_layers)[c] {
                        let i = choose|i: int|
                            0 <= i < old_layers.len() && #[trigger] old_layers[i].resolved_cells@[c];
                        if i != index {
                            assert(self.layers@[i] == old_layers[i]);
                        } else {
                            assert(target.resolved_cells@[c]);
                        }
                    }
                    if resolved_view(self.layers@)[c] {
                        let i = choose|i: int|
                            0 <= i < self.layers@.len() && #[trigger] self.layers@[i].resolved_cells@[c];
                        if i != index {
                            assert(self.layers@[i] == old_layers[i]);
                        }
                    }
                }
                let target = self.layers@[index as int];
                assert(same_versions(target, old_layers[index as int]));
                assert forall|i: int, c: int|
                    0 <= i < old_layers.len() && 0 <= c < 32768
                        && #[trigger] old_layers[i].resolved_cells@[c] implies exists|k: int|
                        0 <= k < self.layers@.len() && self.layers@[k].resolved_cells@[c]
                            && same_versions(self.layers@[k], old_layers[i]) by {
                    if i != index {
                        assert(self.layers@[i] == old_layers[i]);
                    } else {
                        assert(target.resolved_cells@[c]);
                    }
                }
                assert forall|k: int, c: int|
                    0 <= k < self.layers@.len() && 0 <= c < 32768
                        && #[trigger] self.layers@[k].resolved_cells@[c] && !resolved_view(
                        old_layers,
                    )[c] implies self.layers@[k].stellar_distribution_version
                    == stellar_distribution_version && self.layers@[k].sampler_version
                    == sampler_version by {
                    if k != index {
                        assert(self.layers@[k] == old_layers[k]);
                        assert(resolved_view(old_layers)[c]);
                    }
                }
                if layers_disjoint(old_layers) {
                    assert forall|i: int, j: int, c: int|
                        0 <= i < self.layers@.len() && 0 <= j < self.layers@.len() && i != j && 0
                            <= c < 32768 implies !(#[trigger] self.layers@[i].resolved_cells@[c]
                        && #[trigger] self.layers@[j].resolved_cells@[c]) by {
                        if i != index && j != index {
                            assert(self.layers@[i] == old_layers[i]);
                            assert(self.layers@[j] == old_layers[j]);
                        } else if i == index {
                            assert(self.layers@[j] == old_layers[j]);
                            if self.layers@[j].resolved_cells@[c] {
                                assert(resolved_view(old_layers)[c]);
                                assert(!fresh@[c]);
                            }
                        } else {
                            assert(self.layers@[i] == old_layers[i]);
                            if self.layers@[i].resolved_cells@[c] {
                                assert(resolved_view(old_layers)[c]);
                                assert(!fresh@[c]);
                            }
                        }
                    }
                }
            }
            proof {
                assert(first_keyed(old_layers, stellar_distribution_version, sampler_version, index as int));
                assert forall|c: int| 0 <= c < 32768 implies #[trigger] self.layers@[index as int].resolved_cells@[c] == (
                    old_layers[index as int].resolved_cells@[c] || (requested@[c] && !resolved_view(old_layers)[c])) by {
                    assert(fresh@[c] == (requested@[c] && !resolved_view(old_layers)[c]));
                }
                if keys_ascending(old_layers) {
                    let target = self.layers@[index as int];
                    assert forall|i: int, j: int| 0 <= i < j < self.layers@.len() implies layer_lt(
                        #[trigger] self.layers@[i],
                        #[trigger] self.layers@[j],
                    ) by {
                        assert(layer_lt(old_layers[i], old_layers[j]));
                        if i != index {
                            assert(self.layers@[i] == old_layers[i]);
                        } else {
                            assert(same_versions(target, old_layers[index as int]));
                        }
                        if j != index {
                            assert(self.layers@[j] == old_layers[j]);
                        } else {
                            assert(same_versions(target, old_layers[index as int]));
                        }
                    }
                }
            }
        } else {
            let ghost before_sort = self.layers@.push(
                CoverageLayer { stellar_distribution_version, sampler_version, resolved_cells: fresh },
            );
            self.layers.push(
                CoverageLayer { stellar_distribution_version, sampler_version, resolved_cells: fresh },
            );
            sort_layers(&mut self.layers);
            proof {
                assert(!(exists|i: int|
                    0 <= i < old_layers.len() && old_layers[i].stellar_distribution_version
                        == stellar_distribution_version && old_layers[i].sampler_version
                        == sampler_version));
                broadcast use vstd::seq_lib::group_to_multiset_ensures;
                let new_layer = before_sort.last();
                assert forall|c: int| 0 <= c < 32768 implies #[trigger] resolved_view(
                    self.layers@,
                )[c] == (resolved_view(old_layers)[c] || requested@[c]) by {
                    if requested@[c] && !resolved_view(old_layers)[c] {
                        assert(before_sort.to_multiset().count(new_layer) > 0);
                        let i = choose|i: int| 0 <= i < self.layers@.len() && self.layers@[i] == new_layer;
                        assert(self.layers@[i].resolved_cells@[c]);
                    }
                    if resolved_view(old_layers)[c] {
                        let i = choose|i: int|
                            0 <= i < old_layers.len() && #[trigger] old_layers[i].resolved_cells@[c];
                        assert(before_sort[i] == old_layers[i]);
                        assert(before_sort.to_multiset().count(old_layers[i]) > 0);
                        let k = choose|k: int| 0 <= k < self.layers@.len() && self.layers@[k] == old_layers[i];
                        assert(self.layers@[k].resolved_cells@[c]);
                    }
                    if resolved_view(self.layers@)[c] {
                        let k = choose|k: int|
                            0 <= k < self.layers@.len() && #[trigger] self.layers@[k].resolved_cells@[c];
                        assert(self.layers@.to_multiset().count(self.layers@[k]) > 0);
                        let i = choose|i: int| 0 <= i < before_sort.len() && before_sort[i] == self.layers@[k];
                        if i < old_layers.len() {
                            assert(old_layers[i].resolved_cells@[c]);
                        }
                    }
                }
                let perm = choose|perm: Seq<int>| rearranges(perm, before_sort, self.layers@);
                let m = old_layers.len() as int;
                assert(before_sort.to_multiset().count(new_layer) > 0);
                let kn = choose|k: int| 0 <= k < self.layers@.len() && self.layers@[k] == new_layer;
                assert(self.layers@[kn] == new_layer);
                assert forall|c: int| 0 <= c < 32768 implies #[trigger] self.layers@[kn].resolved_cells@[c] == (
                    requested@[c] && !resolved_view(old_layers)[c]) by {
                    assert(fresh@[c] == (requested@[c] && !resolved_view(old_layers)[c]));
                }
                assert forall|i: int, c: int|
                    0 <= i < old_layers.len() && 0 <= c < 32768
                        && #[trigger] old_layers[i].resolved_cells@[c] implies exists|k: int|
                        0 <= k < self.layers@.len() && self.layers@[k].resolved_cells@[c]
                            && same_versions(self.layers@[k], old_layers[i]) by {
                    assert(before_sort[i] == old_layers[i]);
                    assert(before_sort.to_multiset().count(old_layers[i]) > 0);
                    let k = choose|k: int| 0 <= k < self.layers@.len() && self.layers@[k] == old_layers[i];
                    assert(self.layers@[k].resolved_cells@[c]);
                }
                assert forall|k: int, c: int|
                    0 <= k < self.layers@.len() && 0 <= c < 32768
                        && #[trigger] self.layers@[k].resolved_cells@[c] && !resolved_view(
                        old_layers,
                    )[c] implies self.layers@[k].stellar_distribution_version
                    == stellar_distribution_version && self.layers@[k].sampler_version
                    == sampler_version by {
                    let i = perm[k];
                    assert(self.layers@[k] == before_sort[i]);
                    if i < m {
                        assert(before_sort[i] == old_layers[i]);
                        assert(resolved_view(old_layers)[c]);
                    }
                }
                if layers_disjoint(old_layers) {
                    assert forall|a: int, b: int, c: int|
                        0 <= a < self.layers@.len() && 0 <= b < self.layers@.len() && a != b && 0
                            <= c < 32768 implies !(#[trigger] self.layers@[a].resolved_cells@[c]
                        && #[trigger] self.layers@[b].resolved_cells@[c]) by {
                        let i = perm[a];
                        let j = perm[b];
                        assert(i != j);
                        assert(self.layers@[a] == before_sort[i]);
                        assert(self.layers@[b] == before_sort[j]);
                        if i < m && j < m {
                            assert(before_sort[i] == old_layers[i]);
                            assert(before_sort[j] == old_layers[j]);
                        } else if i == m {
                            assert(before_sort[j] == old_layers[j]);
                            if old_layers[j].resolved_cells@[c] {
                                assert(resolved_view(old_layers)[c]);
                                assert(!fresh@[c]);
                            }
                        } else {
                            assert(before_sort[i] == old_layers[i]);
                            if old_layers[i].resolved_cells@[c] {
                                assert(resolved_view(old_layers)[c]);
                                assert(!fresh@[c]);
                            }
                        }
                    }
                }
                if keys_ascending(old_layers) {
                    assert(layers_sorted(self.layers@));
                    assert forall|a: int, b: int| 0 <= a < b < self.layers@.len() implies layer_lt(
                        #[trigger] self.layers@[a],
                        #[trigger] self.layers@[b],
                    ) by {
                        let i = perm[a];
                        let j = perm[b];
                        assert(i != j);
                        assert(self.layers@[a] == before_sort[i]);
                        assert(self.layers@[b] == before_sort[j]);
                        assert(layer_le(self.layers@[a], self.layers@[b]));
                        if i < m && j < m {
                            assert(before_sort[i] == old_layers[i]);
                            assert(before_sort[j] == old_layers[j]);
                            if i < j {
                                assert(layer_lt(old_layers[i], old_layers[j]));
                            } else {
                                assert(layer_lt(old_layers[j], old_layers[i]));
                            }
                        } else if i == m {
                            assert(before_sort[j] == old_layers[j]);
                        } else {
                            assert(before_sort[i] == old_layers[i]);
                        }
                    }
                }
            }
        }
        added
    }
}

proof fn lemma_count_positive(s: Seq<bool>, c: int)
    requires
        0 <= c < s.len(),
        s[c],
    ensures
        count_true(s) > 0,
    decreases s.len(),
{
    if c < s.len() - 1 {
        lemma_count_positive(s.drop_last(), c);
    }
}

/// What a mapping request finds in the coverage index.
#[derive(Clone, Debug, PartialEq, Eq)]
pub enum MappingCoverage {
    FullyMapped { coverage_revision: u64, footprint_cells: u64 },
    NeedsMaterialization {
        coverage_revision: u64,
        footprint_cells: u64,
        missing_cells: std::collections::BTreeMap<CoverageChunkCoordinate, CellBitmap>,
    },
}

impl MappingCoverage {
    pub fn coverage_revision(&self) -> (r: u64)
        ensures
            r == match self {
                MappingCoverage::FullyMapped { coverage_revision, .. } => *coverage_revision,
                MappingCoverage::NeedsMaterialization { coverage_revision, .. } => *coverage_revision,
            },
    {
        match self {
            Self::FullyMapped { coverage_revision, .. } | Self::NeedsMaterialization {
                coverage_revision,
                ..
            } => *coverage_revision,
        }
    }
}

#[derive(Clone, Copy, Debug, PartialEq, Eq)]
pub enum CoverageGeometryError {
    NonFiniteCenter,
    InvalidRadius,
    CoordinateOutOfRange,
    InvalidPolyhedron,
}

/// The chunk holding a cell and the cell's bit within it.
pub open spec fn chunk_and_local_spec(x: int, y: int, z: int) -> (CoverageChunkCoordinate, int) {
    (
        CoverageChunkCoordinate { x: (x / 32) as i64, y: (y / 32) as i64, z: (z / 32) as i64 },
        ((x % 32) * 32 + (y % 32)) * 32 + (z % 32),
    )
}

pub fn chunk_and_local(cell_x: i64, cell_y: i64, cell_z: i64) -> (r: (CoverageChunkCoordinate, usize))
    ensures
        r.0 == chunk_and_local_spec(cell_x as int, cell_y as int, cell_z as int).0,
        r.1 == chunk_and_local_spec(cell_x as int, cell_y as int, cell_z as int).1,
        r.1 < 32768,
{
    let chunk = CoverageChunkCoordinate {
        x: floor_div32(cell_x),
        y: floor_div32(cell_y),
        z: floor_div32(cell_z),
    };
    let local_x = floor_mod32(cell_x) as usize;
    let local_y = floor_mod32(cell_y) as usize;
    let local_z = floor_mod32(cell_z) as usize;
    let bit_index = (local_x * 32 + local_y) * 32 + local_z;
    (chunk, bit_index)
}

fn floor_div32(v: i64) -> (r: i64)
    ensures
        r == v as int / 32,
{
    let q = v / 32;
    let rem = v % 32;
    if rem < 0 {
        q - 1
    } else {
        q
    }
}

fn floor_mod32(v: i64) -> (r: i64)
    ensures
        r == v as int % 32,
        0 <= r < 32,
{
    let rem = v % 32;
    if rem < 0 {
        rem + 32
    } else {
        rem
    }
}

} // verus!
