use vstd::prelude::*;
use vstd::std_specs::ops::{AddSpecImpl, SubSpecImpl};

verus! {

/// Number of ticks in one unit (a beat or a second).
pub const FACTOR: u64 = 28_224_000;

/// `bits` rounded down to a multiple of `m`.
pub open spec fn floor_spec(bits: nat, m: nat) -> nat {
    (bits - bits % m) as nat
}

/// `bits` rounded up to the next multiple of `m` (itself when it already is one).
pub open spec fn ceil_spec(bits: nat, m: nat) -> nat {
    if bits % m == 0 {
        bits
    } else {
        (bits - bits % m + m) as nat
    }
}

/// `bits` rounded to the nearest multiple of `m`; a remainder of exactly half of `m`
/// (rounded down) or more rounds up.
pub open spec fn round_spec(bits: nat, m: nat) -> nat {
    if bits % m < m / 2 {
        (bits - bits % m) as nat
    } else {
        (bits - bits % m + m) as nat
    }
}

/// Whether rounding `bits` up to a multiple of `m` stays within `u64`.
pub open spec fn ceil_fits(bits: nat, m: nat) -> bool {
    ceil_spec(bits, m) <= u64::MAX
}

/// Whether rounding `bits` to the nearest multiple of `m` stays within `u64`.
pub open spec fn round_fits(bits: nat, m: nat) -> bool {
    round_spec(bits, m) <= u64::MAX
}

/// The distance between two values.
pub open spec fn abs_diff_spec(a: nat, b: nat) -> nat {
    if a < b {
        (b - a) as nat
    } else {
        (a - b) as nat
    }
}

proof fn lemma_mod_le(x: nat, m: nat)
    requires
        m > 0,
    ensures
        x % m <= x,
        x % m < m,
{
    vstd::arithmetic::div_mod::lemma_mod_decreases(x, m);
}

/// A non-negative fixed-point number with `FACTOR` ticks per unit.
#[derive(Clone, Copy, Debug, Default, PartialEq, Eq, Structural, PartialOrd, Ord, Hash)]
pub struct FixedPoint(pub u64);

impl View for FixedPoint {
    type V = nat;

    open spec fn view(&self) -> nat {
        self.0 as nat
    }
}

impl FixedPoint {
    /// `unit` whole units and `tick` ticks.
    pub fn new(unit: u64, tick: u64) -> (r: Self)
        requires
            tick <= FACTOR,
            unit <= u64::MAX / FACTOR,
            unit * FACTOR + tick <= u64::MAX,
        ensures
            r@ == unit * FACTOR + tick,
    {
        assert(unit * FACTOR <= u64::MAX) by (nonlinear_arith)
            requires unit <= u64::MAX / FACTOR;
        FixedPoint(unit * FACTOR + tick)
    }

    pub fn from_bits(bits: u64) -> (r: Self)
        ensures
            r@ == bits,
    {
        FixedPoint(bits)
    }

    pub fn to_bits(self) -> (r: u64)
        ensures
            r == self@,
    {
        self.0
    }

    /// The number of whole units.
    pub fn unit(self) -> (r: u64)
        ensures
            r == self@ / (FACTOR as nat),
    {
        self.0 / FACTOR
    }

    /// The ticks past the last whole unit.
    pub fn tick(self) -> (r: u64)
        ensures
            r == self@ % (FACTOR as nat),
            r < FACTOR,
    {
        self.0 % FACTOR
    }

    /// Rounds down to a multiple of `modulo`.
    pub fn floor(self, modulo: Self) -> (r: Self)
        requires
            modulo@ > 0,
        ensures
            r@ == floor_spec(self@, modulo@),
    {
        proof {
            lemma_mod_le(self@, modulo@);
        }
        FixedPoint(self.0 - self.0 % modulo.0)
    }

    /// Rounds up to a multiple of `modulo`.
    pub fn ceil(self, modulo: Self) -> (r: Self)
        requires
            modulo@ > 0,
            ceil_fits(self@, modulo@),
        ensures
            r@ == ceil_spec(self@, modulo@),
    {
        proof {
            lemma_mod_le(self@, modulo@);
        }
        let rem = self.0 % modulo.0;
        if rem == 0 {
            self
        } else {
            FixedPoint(self.0 - rem + modulo.0)
        }
    }

    /// Rounds to the nearest multiple of `modulo`.
    pub fn round(self, modulo: Self) -> (r: Self)
        requires
            modulo@ > 0,
            round_fits(self@, modulo@),
        ensures
            r@ == round_spec(self@, modulo@),
    {
        proof {
            lemma_mod_le(self@, modulo@);
        }
        let diff = self.0 % modulo.0;
        if diff < modulo.0 / 2 {
            FixedPoint(self.0 - diff)
        } else {
            FixedPoint(self.0 + (modulo.0 - diff))
        }
    }

    pub fn checked_sub(self, other: Self) -> (r: Option<Self>)
        ensures
            r matches Some(v) <==> self@ >= other@,
            r matches Some(v) ==> v@ == self@ - other@,
    {
        if self.0 >= other.0 {
            Some(FixedPoint(self.0 - other.0))
        } else {
            None
        }
    }

    pub fn saturating_sub(self, other: Self) -> (r: Self)
        ensures
            r@ == if self@ >= other@ { (self@ - other@) as nat } else { 0 },
    {
        if self.0 >= other.0 {
            FixedPoint(self.0 - other.0)
        } else {
            FixedPoint(0)
        }
    }

    pub fn abs_diff(self, other: Self) -> (r: Self)
        ensures
            r@ == abs_diff_spec(self@, other@),
    {
        if self.0 < other.0 {
            FixedPoint(other.0 - self.0)
        } else {
            FixedPoint(self.0 - other.0)
        }
    }
}

impl std::ops::Add for FixedPoint {
    type Output = Self;

    fn add(self, rhs: Self) -> (r: Self) {
        FixedPoint(self.0 + rhs.0)
    }
}

impl AddSpecImpl for FixedPoint {
    open spec fn obeys_add_spec() -> bool {
        true
    }

    open spec fn add_req(self, rhs: Self) -> bool {
        self@ + rhs@ <= u64::MAX
    }

    open spec fn add_spec(self, rhs: Self) -> Self {
        FixedPoint((self@ + rhs@) as u64)
    }
}

impl std::ops::Sub for FixedPoint {
    type Output = Self;

    fn sub(self, rhs: Self) -> (r: Self) {
        FixedPoint(self.0 - rhs.0)
    }
}

impl SubSpecImpl for FixedPoint {
    open spec fn obeys_sub_spec() -> bool {
        true
    }

    open spec fn sub_req(self, rhs: Self) -> bool {
        self@ >= rhs@
    }

    open spec fn sub_spec(self, rhs: Self) -> Self {
        FixedPoint((self@ - rhs@) as u64)
    }
}

/// Rounding to a grid of step `m`: each of floor, ceil and round gives a multiple of `m`; the
/// floor is at most the value and the ceil at least it, each less than one step away; a value
/// on the grid stays where it is under floor and ceil; and, on a grid of step two or more,
/// round gives the floor or the ceil, and leaves a value on the grid where it is.
pub proof fn lemma_rounding(bits: nat, m: nat)
    requires
        m > 0,
    ensures
        floor_spec(bits, m) % m == 0,
        ceil_spec(bits, m) % m == 0,
        round_spec(bits, m) % m == 0,
        floor_spec(bits, m) <= bits <= ceil_spec(bits, m),
        bits - floor_spec(bits, m) < m,
        ceil_spec(bits, m) - bits < m,
        bits % m == 0 ==> floor_spec(bits, m) == bits && ceil_spec(bits, m) == bits,
        m >= 2 && bits % m == 0 ==> round_spec(bits, m) == bits,
        m >= 2 ==> (round_spec(bits, m) == floor_spec(bits, m) || round_spec(bits, m)
            == ceil_spec(bits, m)),
{
    let r = bits % m;
    let q = bits / m;
    assert(bits == q * m + r && r < m) by (nonlinear_arith)
        requires m > 0, r == bits % m, q == bits / m;
    assert((q * m) % m == 0) by (nonlinear_arith)
        requires m > 0;
    assert((q * m + m) % m == 0) by (nonlinear_arith)
        requires m > 0;
    assert(floor_spec(bits, m) == q * m);
    if r == 0 {
    } else {
        assert(ceil_spec(bits, m) == q * m + m);
    }
}

/// On a grid of step two or more, round gives whichever of the floor and the ceil is nearer,
/// except on a grid of odd step
/// where the value lies just under half a step past a grid point, which rounds up.
pub proof fn lemma_round_nearest(bits: nat, m: nat)
    requires
        m >= 2,
        m % 2 == 0 || bits % m != m / 2,
    ensures
        abs_diff_spec(round_spec(bits, m), bits) <= abs_diff_spec(floor_spec(bits, m), bits),
        abs_diff_spec(round_spec(bits, m), bits) <= abs_diff_spec(ceil_spec(bits, m), bits),
{
    lemma_rounding(bits, m);
    let r = bits % m;
    let q = bits / m;
    assert(bits == q * m + r && r < m) by (nonlinear_arith)
        requires m > 0, r == bits % m, q == bits / m;
    if r < m / 2 {
        assert(r * 2 < m) by (nonlinear_arith)
            requires r < m / 2, m > 0;
    } else {
        assert(r * 2 >= m) by (nonlinear_arith)
            requires r >= m / 2, m > 0, m % 2 == 0 || r != m / 2;
    }
}

/// A value built from whole units and ticks gives those back, where the ticks are fewer than
/// a unit.
pub proof fn lemma_unit_tick(unit: nat, tick: nat)
    requires
        tick < FACTOR,
    ensures
        (unit * FACTOR + tick) / (FACTOR as int) == unit,
        (unit * FACTOR + tick) % (FACTOR as int) == tick,
{
    vstd::arithmetic::div_mod::lemma_fundamental_div_mod_converse(
        (unit * FACTOR + tick) as int,
        FACTOR as int,
        unit as int,
        tick as int,
    );
}

/// Floor, ceil and round keep the order of the values they round.
pub proof fn lemma_rounding_monotone(a: nat, b: nat, m: nat)
    requires
        m > 0,
        a <= b,
    ensures
        floor_spec(a, m) <= floor_spec(b, m),
        ceil_spec(a, m) <= ceil_spec(b, m),
        round_spec(a, m) <= round_spec(b, m),
{
    let qa = a / m;
    let ra = a % m;
    let qb = b / m;
    let rb = b % m;
    assert(a == qa * m + ra && ra < m) by (nonlinear_arith)
        requires m > 0, qa == a / m, ra == a % m;
    assert(b == qb * m + rb && rb < m) by (nonlinear_arith)
        requires m > 0, qb == b / m, rb == b % m;
    assert(qa <= qb) by (nonlinear_arith)
        requires m > 0, a <= b, qa == a / m, qb == b / m;
    if qa < qb {
        assert(qa * m + m <= qb * m) by (nonlinear_arith)
            requires qa < qb, m > 0;
    } else {
        assert(ra <= rb);
    }
}

} // verus!
