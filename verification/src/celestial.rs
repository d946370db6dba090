//! Classes of stars, worlds and atmospheres of a celestial system, and the
//! fixed profile of Earth.

use vstd::prelude::*;
use crate::crypto::{derive_seed, derived_seed, stream_block, CryptoError, SeedStream};
use crate::text::{decimal, decimal_spec};
use crate::universe::{Starport, World, EARTH_WORLD_ID, SOL_SYSTEM_ID};

verus! {

pub const CELESTIAL_GENERATION_VERSION: u16 = 1;

#[derive(Clone, Copy, Debug, PartialEq, Eq, Structural)]
pub enum SpectralClass {
    O,
    B,
    A,
    F,
    G,
    K,
    M,
    L,
    T,
    Y,
    WhiteDwarf,
}

#[derive(Clone, Copy, Debug, PartialEq, Eq, Structural)]
pub enum LuminosityClass {
    Ia,
    Ib,
    II,
    III,
    IV,
    V,
    VI,
    D,
}

#[derive(Clone, Copy, Debug, PartialEq, Eq, Structural)]
pub enum RockyPlanetClass {
    Dwarf,
    Mercurian,
    Subterran,
    Terran,
    Superterran,
}

#[derive(Clone, Copy, Debug, PartialEq, Eq, Structural)]
pub enum GasGiantClass {
    Neptunian,
    Jovian,
}

#[derive(Clone, Copy, Debug, PartialEq, Eq, Structural)]
pub enum OrbitalZone {
    Inner,
    Habitable,
    Outer,
}

#[derive(Clone, Copy, Debug, PartialEq, Eq, Structural)]
pub enum PlanetaryCore {
    Molten,
    Rocky,
    Icy,
}

/// Atmosphere composition by CE atmosphere code; `Vacuum` is code 0.
#[derive(Clone, Copy, Debug, PartialEq, Eq, Structural)]
pub enum AtmosphereComposition {
    Vacuum,
    Trace,
    NitrogenOxygen,
    Exotic,
    Corrosive,
    Insidious,
    DenseNitrogenOxygen,
    ThinNitrogenOxygen,
    Unusual,
}

#[derive(Clone, Copy, Debug, PartialEq, Eq, Structural)]
pub enum AtmosphericTaint {
    Chlorine,
    Fluorine,
    Sulfur,
    HighOxygen,
    Disease,
    PollenOrSpores,
    Biotoxins,
    Dust,
    VolcanicAsh,
    LowOxygen,
    NitrogenOxides,
}

/// Native life, from none (`Lifeless`) to a complex ecology.
#[derive(Clone, Copy, Debug, PartialEq, Eq, Structural, PartialOrd, Ord)]
pub enum NativeBiology {
    Lifeless,
    AquaticMicrobes,
    TerrestrialMicrobes,
    SimpleMulticellular,
    SmallAquaticAndCoastal,
    LargeAquaticAndFerns,
    Amphibian,
    EarlyLandEcology,
    DiverseVertebrates,
    ComplexEcology,
}

/// Earth's fixed CE profile: A867974-D with one belt and four gas giants.
pub open spec fn earth_profile(w: World) -> bool {
    &&& w.id == EARTH_WORLD_ID
    &&& w.system_id == SOL_SYSTEM_ID
    &&& w.name@ == "Earth"@
    &&& w.starport == Starport::A
    &&& w.size == 8
    &&& w.atmosphere == 6
    &&& w.hydrographics == 7
    &&& w.population == 9
    &&& w.population_multiplier == 8
    &&& w.government == 4
    &&& w.law_level == 5
    &&& w.tech_level == 13
    &&& w.planetoid_belts == 1
    &&& w.gas_giants == 4
}

pub fn fixed_earth_world() -> (r: World)
    ensures
        earth_profile(r),
{
    World {
        id: EARTH_WORLD_ID,
        system_id: SOL_SYSTEM_ID,
        name: String::from_str("Earth"),
        starport: Starport::A,
        size: 8,
        atmosphere: 6,
        hydrographics: 7,
        population: 9,
        population_multiplier: 8,
        government: 4,
        law_level: 5,
        tech_level: 13,
        planetoid_belts: 1,
        gas_giants: 4,
    }
}

pub open spec fn composition_spec(code: u8) -> AtmosphereComposition {
    if code == 0 {
        AtmosphereComposition::Vacuum
    } else if code == 1 {
        AtmosphereComposition::Trace
    } else if code <= 9 {
        AtmosphereComposition::NitrogenOxygen
    } else if code == 10 {
        AtmosphereComposition::Exotic
    } else if code == 11 {
        AtmosphereComposition::Corrosive
    } else if code == 12 {
        AtmosphereComposition::Insidious
    } else if code == 13 {
        AtmosphereComposition::DenseNitrogenOxygen
    } else if code == 14 {
        AtmosphereComposition::ThinNitrogenOxygen
    } else {
        AtmosphereComposition::Unusual
    }
}

/// The composition of an atmosphere by its CE code.
pub fn atmosphere_composition(code: u8) -> (r: AtmosphereComposition)
    ensures
        r == composition_spec(code),
{
    match code {
        0 => AtmosphereComposition::Vacuum,
        1 => AtmosphereComposition::Trace,
        2..=9 => AtmosphereComposition::NitrogenOxygen,
        10 => AtmosphereComposition::Exotic,
        11 => AtmosphereComposition::Corrosive,
        12 => AtmosphereComposition::Insidious,
        13 => AtmosphereComposition::DenseNitrogenOxygen,
        14 => AtmosphereComposition::ThinNitrogenOxygen,
        _ => AtmosphereComposition::Unusual,
    }
}

/// Whether an atmosphere of this code may carry a taint: codes 2, 4, 7, 9
/// and 10.
pub open spec fn taintable(code: u8) -> bool {
    code == 2 || code == 4 || code == 7 || code == 9 || code == 10
}

pub open spec fn taint_spec(roll: u16) -> AtmosphericTaint {
    if roll <= 2 {
        AtmosphericTaint::Chlorine
    } else if roll == 3 {
        AtmosphericTaint::Fluorine
    } else if roll == 4 {
        AtmosphericTaint::Sulfur
    } else if roll == 5 {
        AtmosphericTaint::HighOxygen
    } else if roll == 6 {
        AtmosphericTaint::Disease
    } else if roll == 7 {
        AtmosphericTaint::PollenOrSpores
    } else if roll == 8 {
        AtmosphericTaint::Biotoxins
    } else if roll == 9 {
        AtmosphericTaint::Dust
    } else if roll == 10 {
        AtmosphericTaint::VolcanicAsh
    } else if roll == 11 {
        AtmosphericTaint::LowOxygen
    } else {
        AtmosphericTaint::NitrogenOxides
    }
}

/// The taint of an atmosphere of this code for a 2D roll, if it can carry
/// one.
pub fn atmospheric_taint(code: u8, roll: u16) -> (r: Option<AtmosphericTaint>)
    requires
        2 <= roll <= 12,
    ensures
        r == (if taintable(code) {
            Some(taint_spec(roll))
        } else {
            None
        }),
{
    if !(code == 2 || code == 4 || code == 7 || code == 9 || code == 10) {
        return None;
    }
    Some(
        match roll {
            2 => AtmosphericTaint::Chlorine,
            3 => AtmosphericTaint::Fluorine,
            4 => AtmosphericTaint::Sulfur,
            5 => AtmosphericTaint::HighOxygen,
            6 => AtmosphericTaint::Disease,
            7 => AtmosphericTaint::PollenOrSpores,
            8 => AtmosphericTaint::Biotoxins,
            9 => AtmosphericTaint::Dust,
            10 => AtmosphericTaint::VolcanicAsh,
            11 => AtmosphericTaint::LowOxygen,
            _ => AtmosphericTaint::NitrogenOxides,
        },
    )
}

pub open spec fn rocky_class_spec(size: u8) -> RockyPlanetClass {
    if size <= 1 {
        RockyPlanetClass::Dwarf
    } else if size <= 3 {
        RockyPlanetClass::Mercurian
    } else if size <= 6 {
        RockyPlanetClass::Subterran
    } else if size <= 9 {
        RockyPlanetClass::Terran
    } else {
        RockyPlanetClass::Superterran
    }
}

/// The rocky-planet class of a world of this CE size.
pub fn rocky_class_from_size(size: u8) -> (r: RockyPlanetClass)
    ensures
        r == rocky_class_spec(size),
{
    match size {
        0..=1 => RockyPlanetClass::Dwarf,
        2..=3 => RockyPlanetClass::Mercurian,
        4..=6 => RockyPlanetClass::Subterran,
        7..=9 => RockyPlanetClass::Terran,
        _ => RockyPlanetClass::Superterran,
    }
}

/// Rank of a starport, best first: A is 0, X is 5.
pub open spec fn starport_rank_spec(starport: Starport) -> u8 {
    match starport {
        Starport::A => 0,
        Starport::B => 1,
        Starport::C => 2,
        Starport::D => 3,
        Starport::E => 4,
        Starport::X => 5,
    }
}

pub fn starport_rank(starport: Starport) -> (r: u8)
    ensures
        r == starport_rank_spec(starport),
{
    match starport {
        Starport::A => 0,
        Starport::B => 1,
        Starport::C => 2,
        Starport::D => 3,
        Starport::E => 4,
        Starport::X => 5,
    }
}

/// The next worse starport class, stopping at X.
pub fn one_worse(starport: Starport) -> (r: Starport)
    ensures
        starport_rank_spec(r) == if starport_rank_spec(starport) < 5 {
            starport_rank_spec(starport) + 1
        } else {
            5
        },
{
    match starport {
        Starport::A => Starport::B,
        Starport::B => Starport::C,
        Starport::C => Starport::D,
        Starport::D => Starport::E,
        Starport::E | Starport::X => Starport::X,
    }
}

// ---------------------------------------------------------------------------
// Dice drawn from a seed stream, one byte at a time.

/// The label of the stream a world's quirks are rolled from.
pub const QUIRKS_LABEL: [u8; 19] = [
    99, 101, 108, 101, 115, 116, 105, 97, 108, 47, 113, 117, 105, 114, 107, 115, 47, 118, 49,
];

/// How many bytes a seed stream can give: 32 from each of its blocks.
pub open spec fn stream_capacity() -> int {
    u64::MAX as int * 32
}

/// Byte `i` of the stream keyed by `key`, read block by block.
pub open spec fn stream_byte(key: Seq<u8>, i: int) -> u8 {
    stream_block(key, (i / 32) as u64)[i % 32]
}

/// The bytes below which a die of `sides` faces accepts a byte: the largest
/// multiple of `sides` not above 255.
pub open spec fn die_limit(sides: u8) -> u8 {
    (255int - 255int % (sides as int)) as u8
}

/// Whether the stream holds a byte below `limit` at or after `pos`.
pub open spec fn has_accepted(key: Seq<u8>, pos: int, limit: u8) -> bool {
    exists|j: int| pos <= j < stream_capacity() && #[trigger] stream_byte(key, j) < limit
}

/// `j` is the first byte at or after `pos` below `limit`.
pub open spec fn first_accepted_at(key: Seq<u8>, pos: int, limit: u8, j: int) -> bool {
    &&& pos <= j < stream_capacity()
    &&& stream_byte(key, j) < limit
    &&& forall|k: int| pos <= k < j ==> #[trigger] stream_byte(key, k) >= limit
}

/// The first byte at or after `pos` below `limit`.
pub open spec fn first_accepted(key: Seq<u8>, pos: int, limit: u8) -> int {
    choose|j: int| first_accepted_at(key, pos, limit, j)
}

/// The totals of `count` dice of `sides` faces read from position `pos`,
/// each die the first accepted byte modulo `sides`, plus one; with the
/// position after the last.  None where the stream runs out first.
pub open spec fn roll_from(key: Seq<u8>, pos: int, count: nat, sides: u8) -> Option<(int, int)>
    decreases count,
{
    if count == 0 {
        Some((0, pos))
    } else {
        match roll_from(key, pos, (count - 1) as nat, sides) {
            None => None,
            Some((total, p)) => if has_accepted(key, p, die_limit(sides)) {
                let j = first_accepted(key, p, die_limit(sides));
                Some((total + (stream_byte(key, j) % sides) as int + 1, j + 1))
            } else {
                None
            },
        }
    }
}

/// A byte that is the first accepted one is the one `first_accepted` names.
proof fn lemma_first_accepted(key: Seq<u8>, pos: int, limit: u8, j: int)
    requires
        first_accepted_at(key, pos, limit, j),
    ensures
        has_accepted(key, pos, limit),
        first_accepted(key, pos, limit) == j,
{
    assert(stream_byte(key, j) < limit);
    let c = first_accepted(key, pos, limit);
    assert(first_accepted_at(key, pos, limit, c));
    if c < j {
        assert(stream_byte(key, c) >= limit);
    } else if c > j {
        assert(stream_byte(key, j) >= limit);
    }
}

/// A roll of `count` dice of `sides` faces totals between `count` and
/// `count` times `sides`, and reads at least one byte of the stream for each
/// die.
pub proof fn lemma_roll_bounds(key: Seq<u8>, pos: int, count: nat, sides: u8)
    requires
        sides > 0,
        pos <= stream_capacity(),
    ensures
        roll_from(key, pos, count, sides) matches Some((t, p)) ==> count <= t <= count * sides && pos
            + count <= p <= stream_capacity(),
    decreases count,
{
    if count == 0 {
        assert(roll_from(key, pos, count, sides) == Some((0int, pos)));
    }
    if count > 0 {
        lemma_roll_bounds(key, pos, (count - 1) as nat, sides);
        if let Some((t, p)) = roll_from(key, pos, (count - 1) as nat, sides) {
            if has_accepted(key, p, die_limit(sides)) {
                let j = first_accepted(key, p, die_limit(sides));
                let w = choose|w: int| p <= w < stream_capacity() && #[trigger] stream_byte(key, w) < die_limit(sides);
                assert(first_accepted_at(key, p, die_limit(sides), j)) by {
                    lemma_least_accepted(key, p, die_limit(sides), w);
                }
                assert((count - 1) * sides + sides == count * sides) by (nonlinear_arith);
            }
        }
    }
}

/// One more die extends a roll by the die read where the roll ended.
proof fn lemma_roll_from_step(key: Seq<u8>, start: int, i: nat, sides: u8, t: int, p: int)
    requires
        roll_from(key, start, i, sides) == Some((t, p)),
    ensures
        roll_from(key, start, i + 1, sides) == (match roll_from(key, p, 1, sides) {
            Some((v, q)) => Some((t + v, q)),
            None => None::<(int, int)>,
        }),
{
    assert(roll_from(key, p, 0, sides) == Some((0int, p)));
}

/// A roll that runs out of stream stays out of stream with more dice.
proof fn lemma_roll_from_none(key: Seq<u8>, start: int, i: nat, n: nat, sides: u8)
    requires
        roll_from(key, start, i, sides) is None,
        i <= n,
    ensures
        roll_from(key, start, n, sides) is None,
    decreases n - i,
{
    if i < n {
        assert(roll_from(key, start, i + 1, sides) is None);
        lemma_roll_from_none(key, start, i + 1, n, sides);
    }
}

/// Where a byte at or after `pos` is accepted, a first one exists.
proof fn lemma_least_accepted(key: Seq<u8>, pos: int, limit: u8, w: int)
    requires
        pos <= w < stream_capacity(),
        stream_byte(key, w) < limit,
    ensures
        exists|j: int| first_accepted_at(key, pos, limit, j),
    decreases w - pos,
{
    if forall|k: int| pos <= k < w ==> #[trigger] stream_byte(key, k) >= limit {
        assert(first_accepted_at(key, pos, limit, w));
    } else {
        let k = choose|k: int| pos <= k < w && #[trigger] stream_byte(key, k) < limit;
        lemma_least_accepted(key, pos, limit, k);
    }
}

/// A percentile roll from position `pos`: two d10, the first less one
/// counting tens.
pub open spec fn d100_outcome(key: Seq<u8>, pos: int) -> Option<(int, int)> {
    match roll_from(key, pos, 1, 10) {
        None => None,
        Some((tens, p)) => match roll_from(key, p, 1, 10) {
            None => None,
            Some((units, q)) => Some(((tens - 1) * 10 + units, q)),
        },
    }
}

/// Dice rolled from the bytes of a seed stream.
pub struct Dice {
    stream: SeedStream,
    block: [u8; 32],
    offset: usize,
}

impl Dice {
    /// The key of the stream the dice read.
    pub closed spec fn key(&self) -> Seq<u8> {
        self.stream.key()
    }

    /// How many bytes of the stream the dice have read.
    pub closed spec fn position(&self) -> int {
        self.stream.counter() * 32 + self.offset - 32
    }

    /// The unread part of the current block is the stream's own.
    pub closed spec fn wf(&self) -> bool {
        &&& self.offset <= 32
        &&& self.stream.counter() == 0 ==> self.offset == 32
        &&& self.position() <= stream_capacity()
        &&& self.offset < 32 ==> self.block@ == stream_block(self.stream.key(), (self.stream.counter() - 1) as u64)
    }

    /// Dice reading from the start of the stream derived from `seed` for
    /// `label`.
    pub fn from_label(seed: [u8; 32], label: &[u8]) -> (r: Result<Self, CryptoError>)
        ensures
            r is Ok,
            r matches Ok(d) ==> d.wf() && d.key() == derived_seed(seed@, label@) && d.position() == 0,
    {
        let child = match derive_seed(seed, label) {
            Ok(child) => child,
            Err(e) => return Err(e),
        };
        Ok(Self { stream: SeedStream::new(child), block: [0; 32], offset: 32 })
    }

    /// The next byte of the stream; an error once the stream is exhausted.
    pub fn byte(&mut self) -> (r: Result<u8, CryptoError>)
        requires
            old(self).wf(),
        ensures
            final(self).wf(),
            final(self).key() == old(self).key(),
            old(self).position() < stream_capacity() <==> r is Ok,
            r matches Ok(b) ==> b == stream_byte(old(self).key(), old(self).position())
                && final(self).position() == old(self).position() + 1,
            r is Err ==> final(self).position() == old(self).position(),
    {
        let ghost key = self.key();
        let ghost pos = self.position();
        if self.offset >= 32 {
            if self.stream.blocks_drawn() == u64::MAX {
                return Err(CryptoError { code: 0, message: String::from_str("seed-stream counter exhausted") });
            }
            let ghost counter = self.stream.counter();
            let block = match self.stream.next_seed() {
                Ok(block) => block,
                Err(e) => return Err(e),
            };
            self.block = block;
            self.offset = 0;
            assert(self.block@ == stream_block(key, counter));
        }
        let i = self.offset;
        let value = self.block[i];
        self.offset = i + 1;
        proof {
            let c = self.stream.counter() - 1;
            assert(pos == c * 32 + i);
            assert((c * 32 + i as int) / 32 == c && (c * 32 + i as int) % 32 == i as int) by (nonlinear_arith)
                requires
                    0 <= i < 32,
                    c >= 0,
            ;
        }
        Ok(value)
    }

    /// One die of `sides` faces: the first byte below the largest multiple
    /// of `sides`, modulo `sides`, plus one.
    pub fn die(&mut self, sides: u8) -> (r: Result<u8, CryptoError>)
        requires
            old(self).wf(),
            sides > 0,
        ensures
            final(self).wf(),
            final(self).key() == old(self).key(),
            r is Ok <==> roll_from(old(self).key(), old(self).position(), 1, sides) is Some,
            r matches Ok(v) ==> roll_from(old(self).key(), old(self).position(), 1, sides) == Some(
                (v as int, final(self).position()),
            ),
    {
        let ghost key = self.key();
        let ghost start = self.position();
        let limit = u8::MAX - (u8::MAX % sides);
        assert(limit == die_limit(sides));
        assert(roll_from(key, start, 0, sides) == Some((0int, start)));
        loop
            invariant
                self.wf(),
                self.key() == key,
                key == old(self).key(),
                start == old(self).position(),
                start <= self.position() <= stream_capacity(),
                limit == die_limit(sides),
                sides > 0,
                roll_from(key, start, 0, sides) == Some((0int, start)),
                forall|k: int| start <= k < self.position() ==> #[trigger] stream_byte(key, k) >= limit,
            decreases stream_capacity() - self.position(),
        {
            let ghost p = self.position();
            let value = match self.byte() {
                Ok(value) => value,
                Err(e) => {
                    assert(!has_accepted(key, start, limit)) by {
                        if has_accepted(key, start, limit) {
                            let w = choose|w: int| start <= w < stream_capacity() && #[trigger] stream_byte(key, w) < limit;
                            assert(stream_byte(key, w) >= limit);
                        }
                    }
                    return Err(e);
                },
            };
            if value < limit {
                proof {
                    assert(first_accepted_at(key, start, limit, p));
                    lemma_first_accepted(key, start, limit, p);
                    assert(value % sides < sides);
                }
                return Ok(value % sides + 1);
            }
        }
    }

    /// The total of `count` dice of `sides` faces.
    pub fn roll(&mut self, count: u8, sides: u8) -> (r: Result<u16, CryptoError>)
        requires
            old(self).wf(),
            sides > 0,
        ensures
            final(self).wf(),
            final(self).key() == old(self).key(),
            r is Ok <==> roll_from(old(self).key(), old(self).position(), count as nat, sides) is Some,
            r matches Ok(t) ==> roll_from(old(self).key(), old(self).position(), count as nat, sides)
                == Some((t as int, final(self).position())),
    {
        let ghost key = self.key();
        let ghost start = self.position();
        let mut total: u16 = 0;
        let mut i: u8 = 0;
        while i < count
            invariant
                self.wf(),
                self.key() == key,
                key == old(self).key(),
                start == old(self).position(),
                sides > 0,
                i <= count,
                start <= self.position() <= stream_capacity(),
                roll_from(key, start, i as nat, sides) == Some((total as int, self.position())),
            decreases count - i,
        {
            let ghost p = self.position();
            proof {
                lemma_roll_from_step(key, start, i as nat, sides, total as int, p);
                lemma_roll_bounds(key, start, i as nat, sides);
                assert(i * sides <= 255 * 255) by (nonlinear_arith)
                    requires
                        i <= 255,
                        sides <= 255,
                ;
            }
            let v = match self.die(sides) {
                Ok(v) => v,
                Err(e) => {
                    proof {
                        lemma_roll_from_none(key, start, (i + 1) as nat, count as nat, sides);
                    }
                    return Err(e);
                },
            };
            proof {
                lemma_roll_bounds(key, p, 1, sides);
            }
            total = total + v as u16;
            i = i + 1;
        }
        Ok(total)
    }

    /// A six-sided die.
    pub fn d6(&mut self) -> (r: Result<u8, CryptoError>)
        requires
            old(self).wf(),
        ensures
            final(self).wf(),
            final(self).key() == old(self).key(),
            r is Ok <==> roll_from(old(self).key(), old(self).position(), 1, 6) is Some,
            r matches Ok(v) ==> roll_from(old(self).key(), old(self).position(), 1, 6) == Some(
                (v as int, final(self).position()),
            ),
    {
        self.die(6)
    }

    /// A percentile roll from two d10, tens then units: 1 to 100.
    pub fn d100(&mut self) -> (r: Result<u8, CryptoError>)
        requires
            old(self).wf(),
        ensures
            final(self).wf(),
            final(self).key() == old(self).key(),
            r is Ok <==> d100_outcome(old(self).key(), old(self).position()) is Some,
            r matches Ok(v) ==> d100_outcome(old(self).key(), old(self).position()) == Some(
                (v as int, final(self).position()),
            ),
    {
        let ghost key = self.key();
        let ghost pos = self.position();
        let tens = match self.d10() {
            Ok(v) => v,
            Err(e) => return Err(e),
        };
        let ghost p = self.position();
        let units = match self.d10() {
            Ok(v) => v,
            Err(e) => return Err(e),
        };
        proof {
            lemma_roll_bounds(key, pos, 1, 10);
            lemma_roll_bounds(key, p, 1, 10);
        }
        let value: u16 = (tens as u16 - 1) * 10 + units as u16;
        Ok(if value == 100 { 100 } else { value as u8 })
    }

    /// A ten-sided die.
    pub fn d10(&mut self) -> (r: Result<u8, CryptoError>)
        requires
            old(self).wf(),
        ensures
            final(self).wf(),
            final(self).key() == old(self).key(),
            r is Ok <==> roll_from(old(self).key(), old(self).position(), 1, 10) is Some,
            r matches Ok(v) ==> roll_from(old(self).key(), old(self).position(), 1, 10) == Some(
                (v as int, final(self).position()),
            ),
    {
        self.die(10)
    }
}

// ---------------------------------------------------------------------------
// World rules over die rolls.  Each takes the rolls its table reads: a d6,
// 2d6 or 2d10 total as the class calls for.

/// The rolls a class's size table reads are in range: a d6 for dwarfs,
/// Mercurians and Subterrans, 2d6 for Terrans, 2d10 for Superterrans.
pub open spec fn size_roll_ok(class: RockyPlanetClass, roll: u16) -> bool {
    match class {
        RockyPlanetClass::Terran => 2 <= roll <= 12,
        RockyPlanetClass::Superterran => 2 <= roll <= 20,
        _ => 1 <= roll <= 6,
    }
}

/// The size code of a rocky world of the class for its roll.
pub open spec fn size_spec(class: RockyPlanetClass, roll: u16) -> u8 {
    match class {
        RockyPlanetClass::Dwarf => (roll % 2) as u8,
        RockyPlanetClass::Mercurian => (2 + roll % 2) as u8,
        RockyPlanetClass::Subterran => (4 + (roll - 1) / 2) as u8,
        RockyPlanetClass::Terran => if roll <= 5 {
            7
        } else if roll <= 9 {
            8
        } else {
            9
        },
        RockyPlanetClass::Superterran => if roll <= 3 {
            10
        } else if roll <= 5 {
            11
        } else if roll <= 7 {
            12
        } else if roll <= 9 {
            13
        } else if roll + 4 > 24 {
            24
        } else {
            (roll + 4) as u8
        },
    }
}

pub fn size_for_roll(class: RockyPlanetClass, roll: u16) -> (r: u8)
    requires
        size_roll_ok(class, roll),
    ensures
        r == size_spec(class, roll),
{
    match class {
        RockyPlanetClass::Dwarf => (roll % 2) as u8,
        RockyPlanetClass::Mercurian => (2 + roll % 2) as u8,
        RockyPlanetClass::Subterran => (4 + (roll - 1) / 2) as u8,
        RockyPlanetClass::Terran => if roll <= 5 {
            7
        } else if roll <= 9 {
            8
        } else {
            9
        },
        RockyPlanetClass::Superterran => if roll <= 3 {
            10
        } else if roll <= 5 {
            11
        } else if roll <= 7 {
            12
        } else if roll <= 9 {
            13
        } else if roll + 4 > 24 {
            24
        } else {
            (roll + 4) as u8
        },
    }
}

/// The Terran atmosphere table of the habitable zone, by 2d6.
pub open spec fn terran_habitable_atmosphere(roll: u16) -> u8 {
    seq![0u8, 0, 2, 3, 4, 5, 5, 6, 7, 8, 9, 10, 12][roll as int]
}

/// The Terran atmosphere table of the inner zone, by 2d6.
pub open spec fn terran_inner_atmosphere(roll: u16) -> u8 {
    seq![0u8, 0, 2, 3, 4, 4, 5, 5, 6, 7, 10, 11, 12][roll as int]
}

/// The rolls the atmosphere table reads are in range: `first` is the
/// class's roll (a d6, or 2d6 for Terrans, or 2d10 for Superterrans outside
/// the outer zone); `second` is the d6 a Terran of the outer zone also
/// rolls.
pub open spec fn atmosphere_rolls_ok(class: RockyPlanetClass, zone: OrbitalZone, first: u16, second: u8) -> bool {
    &&& 1 <= second <= 6
    &&& match class {
        RockyPlanetClass::Terran => 2 <= first <= 12,
        RockyPlanetClass::Superterran => if zone == OrbitalZone::Outer {
            1 <= first <= 6
        } else {
            2 <= first <= 20
        },
        _ => 1 <= first <= 6,
    }
}

/// The atmosphere code of a rocky world for its class, zone and size.
pub open spec fn atmosphere_spec(class: RockyPlanetClass, zone: OrbitalZone, size: u8, first: u16, second: u8) -> u8 {
    match class {
        RockyPlanetClass::Dwarf => (first % 2) as u8,
        RockyPlanetClass::Mercurian => if zone == OrbitalZone::Outer {
            let v = if first >= 2 { first - 2 } else { 0 };
            (if v > 4 { 4 } else { v }) as u8
        } else {
            let v = if first >= 3 { first - 3 } else { 0 };
            (if v > 3 { 3 } else { v }) as u8
        },
        RockyPlanetClass::Subterran => first as u8,
        RockyPlanetClass::Terran => match zone {
            OrbitalZone::Habitable => terran_habitable_atmosphere(first),
            OrbitalZone::Inner => terran_inner_atmosphere(first),
            OrbitalZone::Outer => if second == 1 {
                1
            } else if second == 2 {
                2
            } else if second == 3 {
                10
            } else if second == 4 {
                11
            } else if second == 5 {
                12
            } else {
                13
            },
        },
        RockyPlanetClass::Superterran => if zone == OrbitalZone::Outer {
            let v = first + if size >= 15 { 1int } else { 0int };
            if v == 1 {
                14
            } else if v == 2 {
                10
            } else if v == 3 {
                11
            } else if v == 4 {
                12
            } else {
                13
            }
        } else {
            let v = first + if size >= 20 {
                6int
            } else if size >= 15 {
                3int
            } else {
                0int
            };
            if v <= 2 {
                6
            } else if v == 3 {
                7
            } else if v <= 6 {
                8
            } else if v <= 9 {
                9
            } else if v <= 12 {
                14
            } else if v <= 15 {
                10
            } else if v <= 17 {
                11
            } else if v <= 19 {
                12
            } else {
                13
            }
        },
    }
}

pub fn atmosphere_for_rolls(class: RockyPlanetClass, zone: OrbitalZone, size: u8, first: u16, second: u8) -> (r: u8)
    requires
        atmosphere_rolls_ok(class, zone, first, second),
    ensures
        r == atmosphere_spec(class, zone, size, first, second),
{
    match class {
        RockyPlanetClass::Dwarf => (first % 2) as u8,
        RockyPlanetClass::Mercurian => if zone == OrbitalZone::Outer {
            let v = if first >= 2 { first - 2 } else { 0 };
            (if v > 4 { 4 } else { v }) as u8
        } else {
            let v = if first >= 3 { first - 3 } else { 0 };
            (if v > 3 { 3 } else { v }) as u8
        },
        RockyPlanetClass::Subterran => first as u8,
        RockyPlanetClass::Terran => match zone {
            OrbitalZone::Habitable => {
                let table: [u8; 13] = [0, 0, 2, 3, 4, 5, 5, 6, 7, 8, 9, 10, 12];
                proof {
                    assert(table@ =~= seq![0u8, 0, 2, 3, 4, 5, 5, 6, 7, 8, 9, 10, 12]);
                }
                table[first as usize]
            },
            OrbitalZone::Inner => {
                let table: [u8; 13] = [0, 0, 2, 3, 4, 4, 5, 5, 6, 7, 10, 11, 12];
                proof {
                    assert(table@ =~= seq![0u8, 0, 2, 3, 4, 4, 5, 5, 6, 7, 10, 11, 12]);
                }
                table[first as usize]
            },
            OrbitalZone::Outer => if second == 1 {
                1
            } else if second == 2 {
                2
            } else if second == 3 {
                10
            } else if second == 4 {
                11
            } else if second == 5 {
                12
            } else {
                13
            },
        },
        RockyPlanetClass::Superterran => if zone == OrbitalZone::Outer {
            let v: u16 = first + if size >= 15 { 1 } else { 0 };
            if v == 1 {
                14
            } else if v == 2 {
                10
            } else if v == 3 {
                11
            } else if v == 4 {
                12
            } else {
                13
            }
        } else {
            let v: u16 = first + if size >= 20 {
                6
            } else if size >= 15 {
                3
            } else {
                0
            };
            if v <= 2 {
                6
            } else if v == 3 {
                7
            } else if v <= 6 {
                8
            } else if v <= 9 {
                9
            } else if v <= 12 {
                14
            } else if v <= 15 {
                10
            } else if v <= 17 {
                11
            } else if v <= 19 {
                12
            } else {
                13
            }
        },
    }
}

/// The hydrographics code of a rocky world: none for a dwarf or Mercurian
/// outside the outer zone; by a d6 (plus one for size 15 or more) in the
/// outer zone; none under a vacuum, thin or exotic atmosphere; else the d6
/// less ten, less one for a tainted atmosphere, plus the atmosphere code,
/// between 0 and 10.
pub open spec fn hydrographics_spec(class: RockyPlanetClass, zone: OrbitalZone, atmosphere: u8, size: u8, d6: u8) -> u8 {
    if (class == RockyPlanetClass::Dwarf || class == RockyPlanetClass::Mercurian) && zone
        != OrbitalZone::Outer {
        0
    } else if zone == OrbitalZone::Outer {
        let v = d6 + if size >= 15 { 1int } else { 0int };
        if v == 1 {
            0
        } else if v == 2 {
            2
        } else if v == 3 {
            4
        } else if v == 4 {
            6
        } else if v == 5 {
            8
        } else {
            10
        }
    } else if atmosphere >= 10 || atmosphere <= 3 {
        0
    } else {
        let taint: int = if atmosphere == 4 || atmosphere == 7 || atmosphere == 9 { 1 } else { 0 };
        let v = d6 - 10 - taint + atmosphere;
        (if v < 0 {
            0
        } else if v > 10 {
            10
        } else {
            v
        }) as u8
    }
}

pub fn hydrographics_for_roll(class: RockyPlanetClass, zone: OrbitalZone, atmosphere: u8, size: u8, d6: u8) -> (r: u8)
    requires
        1 <= d6 <= 6,
    ensures
        r == hydrographics_spec(class, zone, atmosphere, size, d6),
{
    if (class == RockyPlanetClass::Dwarf || class == RockyPlanetClass::Mercurian) && zone
        != OrbitalZone::Outer {
        return 0;
    }
    if zone == OrbitalZone::Outer {
        let v: u8 = d6 + if size >= 15 { 1 } else { 0 };
        return if v == 1 {
            0
        } else if v == 2 {
            2
        } else if v == 3 {
            4
        } else if v == 4 {
            6
        } else if v == 5 {
            8
        } else {
            10
        };
    }
    if atmosphere >= 10 || atmosphere <= 3 {
        return 0;
    }
    let taint: i16 = if atmosphere == 4 || atmosphere == 7 || atmosphere == 9 { 1 } else { 0 };
    let v: i16 = d6 as i16 - 10 - taint + atmosphere as i16;
    (if v < 0 {
        0
    } else if v > 10 {
        10
    } else {
        v
    }) as u8
}

/// The starport a 2d6 total less seven plus the population gives, between
/// 0 and 15: A from 11, B from 9, C from 7, D from 5, E from 3, else X.
pub open spec fn starport_for_total(v: int) -> Starport {
    if v >= 11 {
        Starport::A
    } else if v >= 9 {
        Starport::B
    } else if v >= 7 {
        Starport::C
    } else if v >= 5 {
        Starport::D
    } else if v >= 3 {
        Starport::E
    } else {
        Starport::X
    }
}

/// The starport of a secondary world: none without population or
/// government; else class C for governments 1 and 6, one worse than the
/// system's best for governments from 8, or by 2d6; never better than the
/// system's best.
pub open spec fn secondary_starport_spec(government: u8, population: u8, maximum: Starport, roll: u16) -> Starport {
    if population == 0 || government == 0 {
        Starport::X
    } else {
        let candidate = if government == 1 || government == 6 {
            Starport::C
        } else if government >= 8 {
            if starport_rank_spec(maximum) < 5 {
                rank_starport((starport_rank_spec(maximum) + 1) as u8)
            } else {
                Starport::X
            }
        } else {
            starport_for_total(roll - 7 + population)
        };
        if starport_rank_spec(candidate) < starport_rank_spec(maximum) {
            maximum
        } else {
            candidate
        }
    }
}

/// The starport of a rank.
pub open spec fn rank_starport(rank: u8) -> Starport {
    if rank == 0 {
        Starport::A
    } else if rank == 1 {
        Starport::B
    } else if rank == 2 {
        Starport::C
    } else if rank == 3 {
        Starport::D
    } else if rank == 4 {
        Starport::E
    } else {
        Starport::X
    }
}

pub fn secondary_starport_for_roll(government: u8, population: u8, maximum: Starport, roll: u16) -> (r: Starport)
    requires
        2 <= roll <= 12,
    ensures
        r == secondary_starport_spec(government, population, maximum, roll),
{
    if population == 0 || government == 0 {
        return Starport::X;
    }
    let candidate = if government == 1 || government == 6 {
        Starport::C
    } else if government >= 8 {
        let worse = one_worse(maximum);
        proof {
            assert(worse == rank_starport(starport_rank_spec(worse)));
        }
        worse
    } else {
        let total: i16 = roll as i16 - 7 + population as i16;
        let v: i16 = if total < 0 {
            0
        } else if total > 15 {
            15
        } else {
            total
        };
        if v >= 11 {
            Starport::A
        } else if v >= 9 {
            Starport::B
        } else if v >= 7 {
            Starport::C
        } else if v >= 5 {
            Starport::D
        } else if v >= 3 {
            Starport::E
        } else {
            Starport::X
        }
    };
    if starport_rank(candidate) < starport_rank(maximum) {
        maximum
    } else {
        candidate
    }
}

/// The identity of a world derived within a system: the system's identity
/// times 65,536 plus the local identity.
pub fn derived_world_id(system_id: u64, local_id: u32) -> (r: u64)
    requires
        system_id * 65_536 + local_id <= u64::MAX,
    ensures
        r == system_id * 65_536 + local_id,
{
    system_id * 65_536 + local_id as u64
}

/// How many quirks a world has: a d6 less three, at least none.
pub fn quirk_count(d6: u8) -> (r: u8)
    ensures
        r == if d6 >= 3 { d6 - 3 } else { 0 },
{
    d6.saturating_sub(3)
}

/// A quirk code from two d6, tens then units; codes 26 and 32 are not
/// quirks and are rolled again.
pub fn quirk_code(tens: u8, units: u8) -> (r: Option<u8>)
    requires
        1 <= tens <= 6,
        1 <= units <= 6,
    ensures
        match r {
            Some(code) => code == tens * 10 + units && code != 26 && code != 32,
            None => tens * 10 + units == 26 || tens * 10 + units == 32,
        },
{
    let code = tens * 10 + units;
    if code == 26 || code == 32 {
        None
    } else {
        Some(code)
    }
}

// ---------------------------------------------------------------------------
// World rules rolled from dice.

/// The dice a class's size table reads: a d6, or 2d6 for Terrans, or 2d10
/// for Superterrans.
pub open spec fn size_dice(class: RockyPlanetClass) -> (nat, u8) {
    match class {
        RockyPlanetClass::Terran => (2, 6),
        RockyPlanetClass::Superterran => (2, 10),
        _ => (1, 6),
    }
}

/// The size rolled from position `pos`, with the position after the roll.
pub open spec fn size_outcome(key: Seq<u8>, pos: int, class: RockyPlanetClass) -> Option<(u8, int)> {
    match roll_from(key, pos, size_dice(class).0, size_dice(class).1) {
        Some((roll, next)) => Some((size_spec(class, roll as u16), next)),
        None => None,
    }
}

/// Rolls the size code of a rocky world of the class.
pub fn roll_size(class: RockyPlanetClass, dice: &mut Dice) -> (r: Result<u8, CryptoError>)
    requires
        old(dice).wf(),
    ensures
        final(dice).wf(),
        final(dice).key() == old(dice).key(),
        r is Ok <==> size_outcome(old(dice).key(), old(dice).position(), class) is Some,
        r matches Ok(size) ==> size_outcome(old(dice).key(), old(dice).position(), class) == Some(
            (size, final(dice).position()),
        ),
{
    let ghost key = dice.key();
    let ghost pos = dice.position();
    let roll: u16 = match class {
        RockyPlanetClass::Terran => match dice.roll(2, 6) {
            Ok(v) => v,
            Err(e) => return Err(e),
        },
        RockyPlanetClass::Superterran => match dice.roll(2, 10) {
            Ok(v) => v,
            Err(e) => return Err(e),
        },
        _ => match dice.d6() {
            Ok(v) => v as u16,
            Err(e) => return Err(e),
        },
    };
    proof {
        lemma_roll_bounds(key, pos, size_dice(class).0, size_dice(class).1);
        assert(roll_from(key, pos, size_dice(class).0, size_dice(class).1) == Some(
            (roll as int, dice.position()),
        ));
    }
    Ok(size_for_roll(class, roll))
}

/// The dice of the first atmosphere roll: a d6, or 2d6 for Terrans, or 2d10
/// for Superterrans outside the outer zone.
pub open spec fn atmosphere_dice(class: RockyPlanetClass, zone: OrbitalZone) -> (nat, u8) {
    match class {
        RockyPlanetClass::Terran => (2, 6),
        RockyPlanetClass::Superterran => if zone == OrbitalZone::Outer {
            (1, 6)
        } else {
            (2, 10)
        },
        _ => (1, 6),
    }
}

/// The atmosphere rolled from position `pos`: Terrans of the outer zone
/// roll a further d6 after their 2d6.
pub open spec fn atmosphere_outcome(
    key: Seq<u8>,
    pos: int,
    class: RockyPlanetClass,
    zone: OrbitalZone,
    size: u8,
) -> Option<(u8, int)> {
    match roll_from(key, pos, atmosphere_dice(class, zone).0, atmosphere_dice(class, zone).1) {
        None => None,
        Some((first, p1)) => if class == RockyPlanetClass::Terran && zone == OrbitalZone::Outer {
            match roll_from(key, p1, 1, 6) {
                None => None,
                Some((second, p2)) => Some(
                    (atmosphere_spec(class, zone, size, first as u16, second as u8), p2),
                ),
            }
        } else {
            Some((atmosphere_spec(class, zone, size, first as u16, 1), p1))
        },
    }
}

/// Rolls the atmosphere code of a rocky world of the class, zone and size.
pub fn roll_atmosphere(class: RockyPlanetClass, zone: OrbitalZone, size: u8, dice: &mut Dice) -> (r:
    Result<u8, CryptoError>)
    requires
        old(dice).wf(),
    ensures
        final(dice).wf(),
        final(dice).key() == old(dice).key(),
        r is Ok <==> atmosphere_outcome(old(dice).key(), old(dice).position(), class, zone, size) is Some,
        r matches Ok(a) ==> atmosphere_outcome(old(dice).key(), old(dice).position(), class, zone, size)
            == Some((a, final(dice).position())),
{
    let ghost key = dice.key();
    let ghost pos = dice.position();
    let first: u16 = match class {
        RockyPlanetClass::Terran => match dice.roll(2, 6) {
            Ok(v) => v,
            Err(e) => return Err(e),
        },
        RockyPlanetClass::Superterran => if zone == OrbitalZone::Outer {
            match dice.d6() {
                Ok(v) => v as u16,
                Err(e) => return Err(e),
            }
        } else {
            match dice.roll(2, 10) {
                Ok(v) => v,
                Err(e) => return Err(e),
            }
        },
        _ => match dice.d6() {
            Ok(v) => v as u16,
            Err(e) => return Err(e),
        },
    };
    let ghost p1 = dice.position();
    proof {
        lemma_roll_bounds(key, pos, atmosphere_dice(class, zone).0, atmosphere_dice(class, zone).1);
    }
    let second: u8 = if class == RockyPlanetClass::Terran && zone == OrbitalZone::Outer {
        match dice.d6() {
            Ok(v) => v,
            Err(e) => return Err(e),
        }
    } else {
        1
    };
    proof {
        if class == RockyPlanetClass::Terran && zone == OrbitalZone::Outer {
            lemma_roll_bounds(key, p1, 1, 6);
        }
    }
    Ok(atmosphere_for_rolls(class, zone, size, first, second))
}

/// Whether the hydrographics rule rolls a die: not for a dwarf or Mercurian
/// outside the outer zone, nor under a vacuum, thin or exotic atmosphere
/// outside it.
pub open spec fn hydrographics_rolls(class: RockyPlanetClass, zone: OrbitalZone, atmosphere: u8) -> bool {
    if (class == RockyPlanetClass::Dwarf || class == RockyPlanetClass::Mercurian) && zone
        != OrbitalZone::Outer {
        false
    } else {
        zone == OrbitalZone::Outer || (4 <= atmosphere <= 9)
    }
}

/// The hydrographics rolled from position `pos`.
pub open spec fn hydrographics_outcome(
    key: Seq<u8>,
    pos: int,
    class: RockyPlanetClass,
    zone: OrbitalZone,
    atmosphere: u8,
    size: u8,
) -> Option<(u8, int)> {
    if hydrographics_rolls(class, zone, atmosphere) {
        match roll_from(key, pos, 1, 6) {
            Some((d6, next)) => Some((hydrographics_spec(class, zone, atmosphere, size, d6 as u8), next)),
            None => None,
        }
    } else {
        Some((0, pos))
    }
}

/// Rolls the hydrographics code of a rocky world.
pub fn roll_hydrographics(
    class: RockyPlanetClass,
    zone: OrbitalZone,
    atmosphere: u8,
    size: u8,
    dice: &mut Dice,
) -> (r: Result<u8, CryptoError>)
    requires
        old(dice).wf(),
    ensures
        final(dice).wf(),
        final(dice).key() == old(dice).key(),
        r is Ok <==> hydrographics_outcome(old(dice).key(), old(dice).position(), class, zone, atmosphere, size) is Some,
        r matches Ok(h) ==> hydrographics_outcome(old(dice).key(), old(dice).position(), class, zone, atmosphere, size)
            == Some((h, final(dice).position())),
{
    let ghost key = dice.key();
    let ghost pos = dice.position();
    if (class == RockyPlanetClass::Dwarf || class == RockyPlanetClass::Mercurian) && zone
        != OrbitalZone::Outer {
        return Ok(0);
    }
    if zone != OrbitalZone::Outer && (atmosphere >= 10 || atmosphere <= 3) {
        return Ok(0);
    }
    let d6 = match dice.d6() {
        Ok(v) => v,
        Err(e) => return Err(e),
    };
    proof {
        lemma_roll_bounds(key, pos, 1, 6);
    }
    Ok(hydrographics_for_roll(class, zone, atmosphere, size, d6))
}

/// Whether a secondary starport is rolled on 2d6: for a populated world with
/// a government other than 1 and 6 and below 8.
pub open spec fn secondary_starport_rolls(government: u8, population: u8) -> bool {
    population != 0 && government != 0 && government != 1 && government != 6 && government < 8
}

/// The secondary starport rolled from position `pos`.
pub open spec fn secondary_starport_outcome(
    key: Seq<u8>,
    pos: int,
    government: u8,
    population: u8,
    maximum: Starport,
) -> Option<(Starport, int)> {
    if secondary_starport_rolls(government, population) {
        match roll_from(key, pos, 2, 6) {
            Some((roll, next)) => Some(
                (secondary_starport_spec(government, population, maximum, roll as u16), next),
            ),
            None => None,
        }
    } else {
        Some((secondary_starport_spec(government, population, maximum, 7), pos))
    }
}

/// Rolls the starport of a secondary world, never better than `maximum`.
pub fn secondary_starport(government: u8, population: u8, maximum: Starport, dice: &mut Dice) -> (r:
    Result<Starport, CryptoError>)
    requires
        old(dice).wf(),
    ensures
        final(dice).wf(),
        final(dice).key() == old(dice).key(),
        r is Ok <==> secondary_starport_outcome(old(dice).key(), old(dice).position(), government, population, maximum) is Some,
        r matches Ok(s) ==> secondary_starport_outcome(old(dice).key(), old(dice).position(), government, population, maximum)
            == Some((s, final(dice).position())),
{
    let ghost key = dice.key();
    let ghost pos = dice.position();
    let roll: u16 = if population != 0 && government != 0 && government != 1 && government != 6
        && government < 8 {
        match dice.roll(2, 6) {
            Ok(v) => v,
            Err(e) => return Err(e),
        }
    } else {
        7
    };
    proof {
        if secondary_starport_rolls(government, population) {
            lemma_roll_bounds(key, pos, 2, 6);
        }
    }
    Ok(secondary_starport_for_roll(government, population, maximum, roll))
}

/// The class of a rocky body by zone for a 2d6 roll.
pub open spec fn rocky_class_roll_spec(zone: OrbitalZone, roll: u16) -> RockyPlanetClass {
    match zone {
        OrbitalZone::Inner => if roll <= 4 {
            RockyPlanetClass::Dwarf
        } else if roll <= 7 {
            RockyPlanetClass::Mercurian
        } else if roll <= 9 {
            RockyPlanetClass::Subterran
        } else if roll <= 11 {
            RockyPlanetClass::Terran
        } else {
            RockyPlanetClass::Superterran
        },
        OrbitalZone::Habitable => if roll <= 2 {
            RockyPlanetClass::Dwarf
        } else if roll == 3 {
            RockyPlanetClass::Mercurian
        } else if roll <= 6 {
            RockyPlanetClass::Subterran
        } else if roll <= 11 {
            RockyPlanetClass::Terran
        } else {
            RockyPlanetClass::Superterran
        },
        OrbitalZone::Outer => if roll <= 6 {
            RockyPlanetClass::Dwarf
        } else if roll <= 9 {
            RockyPlanetClass::Mercurian
        } else if roll == 10 {
            RockyPlanetClass::Subterran
        } else if roll == 11 {
            RockyPlanetClass::Terran
        } else {
            RockyPlanetClass::Superterran
        },
    }
}

/// The class of a rocky body of the zone for a 2d6 roll.
pub fn rocky_class_for_roll(zone: OrbitalZone, roll: u16) -> (r: RockyPlanetClass)
    requires
        2 <= roll <= 12,
    ensures
        r == rocky_class_roll_spec(zone, roll),
{
    match zone {
        OrbitalZone::Inner => if roll <= 4 {
            RockyPlanetClass::Dwarf
        } else if roll <= 7 {
            RockyPlanetClass::Mercurian
        } else if roll <= 9 {
            RockyPlanetClass::Subterran
        } else if roll <= 11 {
            RockyPlanetClass::Terran
        } else {
            RockyPlanetClass::Superterran
        },
        OrbitalZone::Habitable => if roll <= 2 {
            RockyPlanetClass::Dwarf
        } else if roll == 3 {
            RockyPlanetClass::Mercurian
        } else if roll <= 6 {
            RockyPlanetClass::Subterran
        } else if roll <= 11 {
            RockyPlanetClass::Terran
        } else {
            RockyPlanetClass::Superterran
        },
        OrbitalZone::Outer => if roll <= 6 {
            RockyPlanetClass::Dwarf
        } else if roll <= 9 {
            RockyPlanetClass::Mercurian
        } else if roll == 10 {
            RockyPlanetClass::Subterran
        } else if roll == 11 {
            RockyPlanetClass::Terran
        } else {
            RockyPlanetClass::Superterran
        },
    }
}

/// Rolls the class of a rocky body of the zone on 2d6.
pub fn roll_rocky_class(zone: OrbitalZone, dice: &mut Dice) -> (r: Result<RockyPlanetClass, CryptoError>)
    requires
        old(dice).wf(),
    ensures
        final(dice).wf(),
        final(dice).key() == old(dice).key(),
        r is Ok <==> roll_from(old(dice).key(), old(dice).position(), 2, 6) is Some,
        r matches Ok(class) ==> exists|roll: int|
            roll_from(old(dice).key(), old(dice).position(), 2, 6) == Some((roll, final(dice).position()))
                && class == rocky_class_roll_spec(zone, roll as u16),
{
    let ghost key = dice.key();
    let ghost pos = dice.position();
    let roll = match dice.roll(2, 6) {
        Ok(v) => v,
        Err(e) => return Err(e),
    };
    proof {
        lemma_roll_bounds(key, pos, 2, 6);
    }
    Ok(rocky_class_for_roll(zone, roll))
}

/// The quirk codes of `pairs` pairs of d6 read from position `pos`, tens then
/// units, codes 26 and 32 left out; with the position after them.  None
/// where the stream runs out first.
pub open spec fn quirk_codes(key: Seq<u8>, pos: int, pairs: nat) -> Option<(Seq<u8>, int)>
    decreases pairs,
{
    if pairs == 0 {
        Some((Seq::empty(), pos))
    } else {
        match quirk_codes(key, pos, (pairs - 1) as nat) {
            None => None,
            Some((codes, p)) => match roll_from(key, p, 1, 6) {
                None => None,
                Some((tens, p1)) => match roll_from(key, p1, 1, 6) {
                    None => None,
                    Some((units, p2)) => {
                        let code = tens * 10 + units;
                        if code == 26 || code == 32 {
                            Some((codes, p2))
                        } else {
                            Some((codes.push(code as u8), p2))
                        }
                    },
                },
            },
        }
    }
}

/// A quirk code: two digits from 1 to 6, neither 26 nor 32.
pub open spec fn valid_quirk(code: u8) -> bool {
    &&& 1 <= code / 10 <= 6
    &&& 1 <= code % 10 <= 6
    &&& code != 26 && code != 32
}

/// Every code drawn from pairs of d6 is a valid quirk.
pub proof fn lemma_quirk_codes_valid(key: Seq<u8>, pos: int, pairs: nat)
    requires
        pos <= stream_capacity(),
    ensures
        quirk_codes(key, pos, pairs) matches Some((codes, p)) ==> pos <= p <= stream_capacity() && forall|i: int|
            0 <= i < codes.len() ==> valid_quirk(#[trigger] codes[i]),
    decreases pairs,
{
    if pairs > 0 {
        lemma_quirk_codes_valid(key, pos, (pairs - 1) as nat);
        if let Some((codes, p)) = quirk_codes(key, pos, (pairs - 1) as nat) {
            lemma_roll_bounds(key, p, 1, 6);
            if let Some((tens, p1)) = roll_from(key, p, 1, 6) {
                lemma_roll_bounds(key, p1, 1, 6);
                if let Some((units, p2)) = roll_from(key, p1, 1, 6) {
                    let code = tens * 10 + units;
                    assert((code as u8) / 10 == tens && (code as u8) % 10 == units) by (nonlinear_arith)
                        requires
                            code == tens * 10 + units,
                            1 <= tens <= 6,
                            1 <= units <= 6,
                    ;
                }
            }
        }
    }
}

/// The number of quirks a d6 read from the start of `key` gives, with the
/// position after it.
pub open spec fn quirk_count_outcome(key: Seq<u8>) -> Option<(u8, int)> {
    match roll_from(key, 0, 1, 6) {
        Some((d6, next)) => Some((if d6 >= 3 { (d6 - 3) as u8 } else { 0u8 }, next)),
        None => None,
    }
}

/// Fewer than `count` quirks among the first `pairs` pairs, or the stream
/// runs out before them.
pub open spec fn quirk_codes_short(key: Seq<u8>, pos: int, pairs: nat, count: u8) -> bool {
    match quirk_codes(key, pos, pairs) {
        Some((codes, _)) => codes.len() < count,
        None => true,
    }
}

/// The first `pairs` pairs give exactly the codes `quirks`.
pub open spec fn quirk_codes_are(key: Seq<u8>, pos: int, pairs: nat, quirks: Seq<u8>) -> bool {
    match quirk_codes(key, pos, pairs) {
        Some((codes, _)) => codes == quirks,
        None => false,
    }
}

/// `quirks` are the quirks drawn from the stream `key`: as many as its
/// count die gives, the codes of its first pairs.
pub open spec fn quirks_found(key: Seq<u8>, quirks: Seq<u8>) -> bool {
    match quirk_count_outcome(key) {
        Some((count, p1)) => quirks.len() == count && exists|pairs: nat|
            #[trigger] quirk_codes_are(key, p1, pairs, quirks),
        None => false,
    }
}

/// The stream `key` runs out before it gives its quirks.
pub open spec fn quirks_run_out(key: Seq<u8>) -> bool {
    match quirk_count_outcome(key) {
        Some((count, p1)) => forall|pairs: nat| #[trigger] quirk_codes_short(key, p1, pairs, count),
        None => true,
    }
}

/// More pairs never give fewer codes, and a stream that runs out before
/// some pairs runs out before more.
proof fn lemma_quirk_codes_grow(key: Seq<u8>, pos: int, m: nat, n: nat)
    requires
        m <= n,
    ensures
        quirk_codes(key, pos, m) is None ==> quirk_codes(key, pos, n) is None,
        quirk_codes(key, pos, n) matches Some((big, q)) ==> quirk_codes(key, pos, m) matches Some((small, p))
            && small.len() <= big.len(),
    decreases n - m,
{
    if m < n {
        lemma_quirk_codes_grow(key, pos, m, (n - 1) as nat);
    }
}

/// The quirks of a world whose generation seed is `seed`: a d6 less three of
/// them, each the next code of pairs of d6 that is not 26 or 32.
pub fn generate_quirks(seed: [u8; 32]) -> (r: Result<Vec<u8>, CryptoError>)
    ensures
        r matches Ok(quirks) ==> quirks_found(derived_seed(seed@, QUIRKS_LABEL@), quirks@) && forall|i: int|
            0 <= i < quirks@.len() ==> valid_quirk(#[trigger] quirks@[i]),
        r is Err ==> quirks_run_out(derived_seed(seed@, QUIRKS_LABEL@)),
{
    let label: [u8; 19] = QUIRKS_LABEL;
    let mut dice = match Dice::from_label(seed, label.as_slice()) {
        Ok(d) => d,
        Err(e) => return Err(e),
    };
    let ghost key = dice.key();
    let d6 = match dice.d6() {
        Ok(v) => v,
        Err(e) => return Err(e),
    };
    let count = quirk_count(d6);
    let ghost p1 = dice.position();
    let mut quirks: Vec<u8> = Vec::new();
    let ghost mut pairs: nat = 0;
    assert(quirk_codes(key, p1, 0) == Some((quirks@, p1)));
    while quirks.len() < count as usize
        invariant
            dice.wf(),
            dice.key() == key,
            key == derived_seed(seed@, QUIRKS_LABEL@),
            quirk_count_outcome(key) == Some((count, p1)),
            quirks.len() <= count,
            p1 <= dice.position(),
            quirk_codes(key, p1, pairs) == Some((quirks@, dice.position())),
        decreases stream_capacity() - dice.position(),
    {
        let ghost p = dice.position();
        let tens = match dice.d6() {
            Ok(v) => v,
            Err(e) => {
                proof {
                    assert(quirk_codes(key, p1, pairs + 1) is None);
                    assert forall|n: nat| #[trigger] quirk_codes_short(key, p1, n, count) by {
                        if n <= pairs {
                            lemma_quirk_codes_grow(key, p1, n, pairs);
                        } else {
                            lemma_quirk_codes_grow(key, p1, pairs + 1, n);
                        }
                    }
                }
                return Err(e);
            },
        };
        let ghost q = dice.position();
        let units = match dice.d6() {
            Ok(v) => v,
            Err(e) => {
                proof {
                    assert(quirk_codes(key, p1, pairs + 1) is None);
                    assert forall|n: nat| #[trigger] quirk_codes_short(key, p1, n, count) by {
                        if n <= pairs {
                            lemma_quirk_codes_grow(key, p1, n, pairs);
                        } else {
                            lemma_quirk_codes_grow(key, p1, pairs + 1, n);
                        }
                    }
                }
                return Err(e);
            },
        };
        proof {
            lemma_roll_bounds(key, p, 1, 6);
            lemma_roll_bounds(key, q, 1, 6);
        }
        if let Some(code) = quirk_code(tens, units) {
            quirks.push(code);
        }
        proof {
            pairs = pairs + 1;
            assert(quirk_codes(key, p1, pairs) == Some((quirks@, dice.position())));
        }
    }
    proof {
        let outcome = quirk_count_outcome(key);
        assert(quirk_codes_are(key, outcome->Some_0.1, pairs, quirks@));
        lemma_quirk_codes_valid(key, p1, pairs);
    }
    Ok(quirks)
}

/// The population a secondary world rolls: none below tech level 10, else a
/// d6 less one in the habitable zone, two in the inner, three in the outer,
/// between 0 and 10.
pub open spec fn population_outcome(key: Seq<u8>, pos: int, zone: OrbitalZone, tech_level: u8) -> Option<(u8, int)> {
    if tech_level < 10 {
        Some((0, pos))
    } else {
        match roll_from(key, pos, 1, 6) {
            Some((d6, next)) => {
                let v = d6 - match zone {
                    OrbitalZone::Habitable => 1int,
                    OrbitalZone::Inner => 2int,
                    OrbitalZone::Outer => 3int,
                };
                Some(((if v < 0 { 0 } else if v > 10 { 10 } else { v }) as u8, next))
            },
            None => None,
        }
    }
}

/// The population multiplier: none without population, else a d10 at most 9.
pub open spec fn multiplier_outcome(key: Seq<u8>, pos: int, population: u8) -> Option<(u8, int)> {
    if population == 0 {
        Some((0, pos))
    } else {
        match roll_from(key, pos, 1, 10) {
            Some((d10, next)) => Some(((if d10 > 9 { 9 } else { d10 }) as u8, next)),
            None => None,
        }
    }
}

/// The government and law level of a secondary world: none without
/// population; else by 2d6: 2 none; 3 to 5 government 1 and law a d6 plus
/// 4; 6 to 9 government 6 and law a d6 plus 4; 10 and 11 government 6 and
/// law a d6 plus 5; 12 both by 2d6 less seven plus population, then plus
/// government; laws at most 15, governments between 0 and 15.
pub open spec fn government_outcome(key: Seq<u8>, pos: int, population: u8) -> Option<((u8, u8), int)> {
    if population == 0 {
        Some(((0, 0), pos))
    } else {
        match roll_from(key, pos, 2, 6) {
            None => None,
            Some((roll, p)) => if roll == 2 {
                Some(((0, 0), p))
            } else if roll <= 11 {
                match roll_from(key, p, 1, 6) {
                    None => None,
                    Some((d6, q)) => {
                        let government: u8 = if roll <= 5 { 1 } else { 6 };
                        let law = d6 + if roll >= 10 { 5int } else { 4int };
                        Some(((government, (if law > 15 { 15 } else { law }) as u8), q))
                    },
                }
            } else {
                match roll_from(key, p, 2, 6) {
                    None => None,
                    Some((g, q)) => {
                        let gv = g - 7 + population;
                        let government = (if gv < 0 { 0 } else if gv > 15 { 15 } else { gv }) as u8;
                        match roll_from(key, q, 2, 6) {
                            None => None,
                            Some((l, q2)) => {
                                let lv = l - 7 + government;
                                Some(((government, (if lv < 0 { 0 } else if lv > 15 { 15 } else { lv }) as u8), q2))
                            },
                        }
                    },
                }
            },
        }
    }
}

/// The codes of a world that its dice decide: starport, size, atmosphere,
/// hydrographics, population, population multiplier, government and law.
pub open spec fn rolled_codes(w: World) -> (Starport, u8, u8, u8, u8, u8, u8, u8) {
    (w.starport, w.size, w.atmosphere, w.hydrographics, w.population, w.population_multiplier, w.government, w.law_level)
}

/// The codes of a secondary world rolled from position `pos`, in the order
/// its rules read the dice, with the position after them.
pub open spec fn secondary_outcome(
    key: Seq<u8>,
    pos: int,
    class: RockyPlanetClass,
    zone: OrbitalZone,
    tech_level: u8,
    best: Starport,
) -> Option<((Starport, u8, u8, u8, u8, u8, u8, u8), int)> {
    match size_outcome(key, pos, class) {
        None => None,
        Some((size, p1)) => match atmosphere_outcome(key, p1, class, zone, size) {
            None => None,
            Some((atmosphere, p2)) => match hydrographics_outcome(key, p2, class, zone, atmosphere, size) {
                None => None,
                Some((hydrographics, p3)) => match population_outcome(key, p3, zone, tech_level) {
                    None => None,
                    Some((population, p4)) => match multiplier_outcome(key, p4, population) {
                        None => None,
                        Some((multiplier, p5)) => match government_outcome(key, p5, population) {
                            None => None,
                            Some(((government, law), p6)) => match secondary_starport_outcome(key, p6, government, population, best) {
                                None => None,
                                Some((starport, p7)) => Some(
                                    ((starport, size, atmosphere, hydrographics, population, multiplier, government, law), p7),
                                ),
                            },
                        },
                    },
                },
            },
        },
    }
}

/// Rolls the population of a secondary world.
fn roll_population(zone: OrbitalZone, tech_level: u8, dice: &mut Dice) -> (r: Result<u8, CryptoError>)
    requires
        old(dice).wf(),
    ensures
        final(dice).wf(),
        final(dice).key() == old(dice).key(),
        r is Ok <==> population_outcome(old(dice).key(), old(dice).position(), zone, tech_level) is Some,
        r matches Ok(v) ==> population_outcome(old(dice).key(), old(dice).position(), zone, tech_level)
            == Some((v, final(dice).position())),
{
    if tech_level < 10 {
        return Ok(0);
    }
    let ghost key = dice.key();
    let ghost pos = dice.position();
    let d6 = match dice.d6() {
        Ok(v) => v,
        Err(e) => return Err(e),
    };
    proof {
        lemma_roll_bounds(key, pos, 1, 6);
    }
    let modifier: i16 = match zone {
        OrbitalZone::Habitable => -1,
        OrbitalZone::Inner => -2,
        OrbitalZone::Outer => -3,
    };
    let v: i16 = d6 as i16 + modifier;
    Ok((if v < 0 { 0 } else if v > 10 { 10 } else { v }) as u8)
}

/// Rolls the population multiplier of a world.
fn roll_multiplier(population: u8, dice: &mut Dice) -> (r: Result<u8, CryptoError>)
    requires
        old(dice).wf(),
    ensures
        final(dice).wf(),
        final(dice).key() == old(dice).key(),
        r is Ok <==> multiplier_outcome(old(dice).key(), old(dice).position(), population) is Some,
        r matches Ok(v) ==> multiplier_outcome(old(dice).key(), old(dice).position(), population)
            == Some((v, final(dice).position())),
{
    if population == 0 {
        return Ok(0);
    }
    let d10 = match dice.d10() {
        Ok(v) => v,
        Err(e) => return Err(e),
    };
    Ok(if d10 > 9 { 9 } else { d10 })
}

/// Rolls the government and law level of a secondary world.
fn roll_government(population: u8, dice: &mut Dice) -> (r: Result<(u8, u8), CryptoError>)
    requires
        old(dice).wf(),
    ensures
        final(dice).wf(),
        final(dice).key() == old(dice).key(),
        r is Ok <==> government_outcome(old(dice).key(), old(dice).position(), population) is Some,
        r matches Ok(v) ==> government_outcome(old(dice).key(), old(dice).position(), population)
            == Some((v, final(dice).position())),
{
    if population == 0 {
        return Ok((0, 0));
    }
    let ghost key = dice.key();
    let ghost pos = dice.position();
    let roll = match dice.roll(2, 6) {
        Ok(v) => v,
        Err(e) => return Err(e),
    };
    let ghost p = dice.position();
    proof {
        lemma_roll_bounds(key, pos, 2, 6);
    }
    if roll == 2 {
        return Ok((0, 0));
    }
    if roll <= 11 {
        let d6 = match dice.d6() {
            Ok(v) => v,
            Err(e) => return Err(e),
        };
        proof {
            lemma_roll_bounds(key, p, 1, 6);
        }
        let government: u8 = if roll <= 5 { 1 } else { 6 };
        let law: u8 = d6 + if roll >= 10 { 5 } else { 4 };
        return Ok((government, if law > 15 { 15 } else { law }));
    }
    let g = match dice.roll(2, 6) {
        Ok(v) => v,
        Err(e) => return Err(e),
    };
    let ghost q = dice.position();
    proof {
        lemma_roll_bounds(key, p, 2, 6);
    }
    let gv: i16 = g as i16 - 7 + population as i16;
    let government: u8 = (if gv < 0 { 0 } else if gv > 15 { 15 } else { gv }) as u8;
    let l = match dice.roll(2, 6) {
        Ok(v) => v,
        Err(e) => return Err(e),
    };
    proof {
        lemma_roll_bounds(key, q, 2, 6);
    }
    let lv: i16 = l as i16 - 7 + government as i16;
    Ok((government, (if lv < 0 { 0 } else if lv > 15 { 15 } else { lv }) as u8))
}

/// A secondary rocky world of a system: its codes rolled in order, its
/// technology that of the main world where it is populated, its name the
/// system's name and its local identity.
pub fn secondary_world(
    system_id: u64,
    system_name: &str,
    local_id: u32,
    class: RockyPlanetClass,
    zone: OrbitalZone,
    main: &World,
    dice: &mut Dice,
) -> (r: Result<World, CryptoError>)
    requires
        old(dice).wf(),
        system_id * 65_536 + local_id <= u64::MAX,
    ensures
        final(dice).wf(),
        final(dice).key() == old(dice).key(),
        r is Ok <==> secondary_outcome(old(dice).key(), old(dice).position(), class, zone, main.tech_level, main.starport) is Some,
        r matches Ok(w) ==> {
            &&& secondary_outcome(old(dice).key(), old(dice).position(), class, zone, main.tech_level, main.starport)
                == Some((rolled_codes(w), final(dice).position()))
            &&& w.id == system_id * 65_536 + local_id
            &&& w.system_id == system_id
            &&& w.name@ == system_name@ + " "@ + decimal_spec(local_id as nat)
            &&& w.tech_level == (if w.population == 0 { 0 } else { main.tech_level })
            &&& w.planetoid_belts == 0
            &&& w.gas_giants == 0
        },
{
    let size = match roll_size(class, dice) {
        Ok(v) => v,
        Err(e) => return Err(e),
    };
    let atmosphere = match roll_atmosphere(class, zone, size, dice) {
        Ok(v) => v,
        Err(e) => return Err(e),
    };
    let hydrographics = match roll_hydrographics(class, zone, atmosphere, size, dice) {
        Ok(v) => v,
        Err(e) => return Err(e),
    };
    let population = match roll_population(zone, main.tech_level, dice) {
        Ok(v) => v,
        Err(e) => return Err(e),
    };
    let population_multiplier = match roll_multiplier(population, dice) {
        Ok(v) => v,
        Err(e) => return Err(e),
    };
    let (government, law_level) = match roll_government(population, dice) {
        Ok(v) => v,
        Err(e) => return Err(e),
    };
    let starport = match secondary_starport(government, population, main.starport, dice) {
        Ok(v) => v,
        Err(e) => return Err(e),
    };
    proof {
        reveal_strlit(" ");
    }
    let name = String::from_str(system_name).concat(" ").concat(decimal(local_id as u64).as_str());
    Ok(World {
        id: derived_world_id(system_id, local_id),
        system_id,
        name,
        starport,
        size,
        atmosphere,
        hydrographics,
        population,
        population_multiplier,
        government,
        law_level,
        tech_level: if population == 0 { 0 } else { main.tech_level },
        planetoid_belts: 0,
        gas_giants: 0,
    })
}

/// The population, multiplier and law level of a planetoid belt's world
/// rolled from position `pos`: a d6 less three from tech level 10, then a
/// d10 at most 9 and a d6 plus four at most 15 where it is populated.
pub open spec fn belt_outcome(key: Seq<u8>, pos: int, tech_level: u8) -> Option<((u8, u8, u8), int)> {
    let population = if tech_level >= 10 {
        match roll_from(key, pos, 1, 6) {
            Some((d6, p)) => Some(((if d6 >= 3 { d6 - 3 } else { 0 }) as u8, p)),
            None => None,
        }
    } else {
        Some((0u8, pos))
    };
    match population {
        None => None,
        Some((population, p1)) => if population == 0 {
            Some(((0, 0, 0), p1))
        } else {
            match roll_from(key, p1, 1, 10) {
                None => None,
                Some((d10, p2)) => match roll_from(key, p2, 1, 6) {
                    None => None,
                    Some((d6, p3)) => Some(
                        ((population, (if d10 > 9 { 9 } else { d10 }) as u8, (if d6 + 4 > 15 { 15 } else { d6 + 4 }) as u8), p3),
                    ),
                },
            }
        },
    }
}

/// The world of a planetoid belt: populated only from tech level 10, with
/// a class C starport and government 1 where it is.
pub fn belt_world(system_id: u64, system_name: &str, local_id: u32, main: &World, dice: &mut Dice) -> (r: Result<
    World,
    CryptoError,
>)
    requires
        old(dice).wf(),
        system_id * 65_536 + local_id <= u64::MAX,
    ensures
        final(dice).wf(),
        final(dice).key() == old(dice).key(),
        r is Ok <==> belt_outcome(old(dice).key(), old(dice).position(), main.tech_level) is Some,
        r matches Ok(w) ==> {
            &&& belt_outcome(old(dice).key(), old(dice).position(), main.tech_level) == Some(
                ((w.population, w.population_multiplier, w.law_level), final(dice).position()),
            )
            &&& w.id == system_id * 65_536 + local_id
            &&& w.system_id == system_id
            &&& w.name@ == system_name@ + " Belt "@ + decimal_spec(local_id as nat)
            &&& w.starport == (if w.population == 0 { Starport::X } else { Starport::C })
            &&& w.size == 0 && w.atmosphere == 0 && w.hydrographics == 0
            &&& w.government == (if w.population == 0 { 0u8 } else { 1u8 })
            &&& w.tech_level == (if w.population == 0 { 0 } else { main.tech_level })
            &&& w.planetoid_belts == 0
            &&& w.gas_giants == 0
        },
{
    let ghost key = dice.key();
    let ghost pos = dice.position();
    let population: u8 = if main.tech_level >= 10 {
        match dice.d6() {
            Ok(v) => v.saturating_sub(3),
            Err(e) => return Err(e),
        }
    } else {
        0
    };
    let ghost p1 = dice.position();
    proof {
        if main.tech_level >= 10 {
            lemma_roll_bounds(key, pos, 1, 6);
        }
    }
    let population_multiplier: u8 = if population == 0 {
        0
    } else {
        match dice.d10() {
            Ok(v) => if v > 9 { 9 } else { v },
            Err(e) => return Err(e),
        }
    };
    let ghost p2 = dice.position();
    let law_level: u8 = if population == 0 {
        0
    } else {
        match dice.d6() {
            Ok(v) => {
                proof {
                    lemma_roll_bounds(key, p2, 1, 6);
                }
                if v + 4 > 15 { 15 } else { v + 4 }
            },
            Err(e) => return Err(e),
        }
    };
    proof {
        if population != 0 {
            lemma_roll_bounds(key, p1, 1, 10);
            lemma_roll_bounds(key, p2, 1, 6);
        }
        reveal_strlit(" Belt ");
    }
    let name = String::from_str(system_name).concat(" Belt ").concat(decimal(local_id as u64).as_str());
    Ok(World {
        id: derived_world_id(system_id, local_id),
        system_id,
        name,
        starport: if population == 0 { Starport::X } else { Starport::C },
        size: 0,
        atmosphere: 0,
        hydrographics: 0,
        population,
        population_multiplier,
        government: if population == 0 { 0 } else { 1 },
        law_level,
        tech_level: if population == 0 { 0 } else { main.tech_level },
        planetoid_belts: 0,
        gas_giants: 0,
    })
}

} // verus!
