//! Amounts of money: non-negative decimals with at most four fraction digits.
//!
//! An amount is held the way `rust_decimal` holds it, as a mantissa and a
//! scale, and is reasoned about through its view: the number of
//! ten-thousandths it stands for. Sums, differences and the order of two
//! amounts are computed by `rust_decimal`.

use crate::decimal::{
    aligned, common_scale, decimal_add, decimal_lt, decimal_sub, is_decimal, pow10, rescaled,
    MANTISSA_LIMIT,
};
use vstd::prelude::*;
use vstd::std_specs::cmp::PartialEqSpecImpl;

verus! {

/// The number of fraction digits that an amount can carry.
pub const FRACTION_DIGITS: u32 = 4;

/// One more than the largest amount, counted in ten-thousandths.
pub const UNIT_LIMIT: i128 = MANTISSA_LIMIT;

/// The number of ten-thousandths in `mantissa / 10^scale`, for `scale <= 4`.
pub open spec fn units_of(mantissa: int, scale: nat) -> int {
    rescaled(mantissa, scale, FRACTION_DIGITS as nat)
}

/// Whether `mantissa / 10^scale` can be held as an amount.
pub open spec fn is_amount(mantissa: int, scale: nat) -> bool {
    &&& 0 <= mantissa
    &&& scale <= FRACTION_DIGITS
    &&& units_of(mantissa, scale) < UNIT_LIMIT
}

/// A non-negative decimal `mantissa / 10^scale` with `scale <= 4`, small
/// enough to be written with four fraction digits in 96 bits.
#[derive(Clone, Copy, Debug)]
pub struct Amount {
    mantissa: i128,
    scale: u32,
}

impl View for Amount {
    type V = int;

    /// The amount counted in ten-thousandths.
    closed spec fn view(&self) -> int {
        units_of(self.mantissa as int, self.scale as nat)
    }
}

/// The first five powers of ten.
pub proof fn lemma_pow10_small()
    ensures
        pow10(0) == 1,
        pow10(1) == 10,
        pow10(2) == 100,
        pow10(3) == 1000,
        pow10(4) == 10000,
{
    reveal_with_fuel(pow10, 5);
}

/// The power of ten that belongs to a number of fraction digits.
proof fn lemma_pow10_digit(n: nat)
    requires
        n <= FRACTION_DIGITS,
    ensures
        pow10(n) == if n == 0 {
            1int
        } else if n == 1 {
            10
        } else if n == 2 {
            100
        } else if n == 3 {
            1000
        } else {
            10000
        },
{
    lemma_pow10_small();
}

/// Rescaling in two steps, first to `target` and then to four fraction
/// digits, is rescaling to four fraction digits at once.
proof fn lemma_units_through(mantissa: int, scale: nat, target: nat)
    requires
        scale <= target <= FRACTION_DIGITS,
    ensures
        units_of(rescaled(mantissa, scale, target), target) == units_of(mantissa, scale),
        rescaled(mantissa, scale, target) * pow10((FRACTION_DIGITS - target) as nat) == units_of(
            mantissa,
            scale,
        ),
        pow10((FRACTION_DIGITS - target) as nat) >= 1,
{
    let up: nat = (target - scale) as nat;
    let rest: nat = (FRACTION_DIGITS - target) as nat;
    lemma_pow10_digit(up);
    lemma_pow10_digit(rest);
    lemma_pow10_digit((up + rest) as nat);
    assert(pow10(up) * pow10(rest) == pow10((FRACTION_DIGITS - scale) as nat));
    assert(mantissa * pow10(up) * pow10(rest) == mantissa * (pow10(up) * pow10(rest)))
        by (nonlinear_arith);
}

/// What the two mantissas of a pair of amounts are at their common scale,
/// against what the amounts are in ten-thousandths.
proof fn lemma_aligned_units(a: Amount, b: Amount)
    requires
        a.wf(),
        b.wf(),
    ensures
        is_decimal(a.mantissa as int, a.scale as nat),
        is_decimal(b.mantissa as int, b.scale as nat),
        common_scale(a.scale as nat, b.scale as nat) <= FRACTION_DIGITS,
        pow10((FRACTION_DIGITS - common_scale(a.scale as nat, b.scale as nat)) as nat) >= 1,
        aligned(a.mantissa as int, a.scale as nat, b.scale as nat) * pow10(
            (FRACTION_DIGITS - common_scale(a.scale as nat, b.scale as nat)) as nat,
        ) == a@,
        aligned(b.mantissa as int, b.scale as nat, a.scale as nat) * pow10(
            (FRACTION_DIGITS - common_scale(a.scale as nat, b.scale as nat)) as nat,
        ) == b@,
        0 <= aligned(a.mantissa as int, a.scale as nat, b.scale as nat) <= a@,
        0 <= aligned(b.mantissa as int, b.scale as nat, a.scale as nat) <= b@,
{
    let target = common_scale(a.scale as nat, b.scale as nat);
    assert(target == common_scale(b.scale as nat, a.scale as nat));
    lemma_pow10_digit((FRACTION_DIGITS - a.scale) as nat);
    lemma_pow10_digit((FRACTION_DIGITS - b.scale) as nat);
    lemma_pow10_digit((target - a.scale) as nat);
    lemma_pow10_digit((target - b.scale) as nat);
    lemma_units_through(a.mantissa as int, a.scale as nat, target);
    lemma_units_through(b.mantissa as int, b.scale as nat, target);
    lemma_units_through(a.mantissa as int, a.scale as nat, a.scale as nat);
    lemma_units_through(b.mantissa as int, b.scale as nat, b.scale as nat);
    let k = pow10((FRACTION_DIGITS - target) as nat);
    let x = aligned(a.mantissa as int, a.scale as nat, b.scale as nat);
    let y = aligned(b.mantissa as int, b.scale as nat, a.scale as nat);
    assert(a.mantissa <= a@ < UNIT_LIMIT);
    assert(b.mantissa <= b@ < UNIT_LIMIT);
    assert(0 <= x) by (nonlinear_arith)
        requires
            x == a.mantissa * pow10((target - a.scale) as nat),
            0 <= a.mantissa,
    ;
    assert(0 <= y) by (nonlinear_arith)
        requires
            y == b.mantissa * pow10((target - b.scale) as nat),
            0 <= b.mantissa,
    ;
    assert(x <= x * k) by (nonlinear_arith)
        requires
            0 <= x,
            k >= 1,
    ;
    assert(y <= y * k) by (nonlinear_arith)
        requires
            0 <= y,
            k >= 1,
    ;
}

/// A result of `rust_decimal` at a scale not above `target`, read as an
/// amount.
proof fn lemma_result_units(mantissa: int, scale: nat, target: nat, value: int, units: int)
    requires
        0 <= mantissa,
        scale <= target <= FRACTION_DIGITS,
        rescaled(mantissa, scale, target) == value,
        value * pow10((FRACTION_DIGITS - target) as nat) == units,
        units < UNIT_LIMIT,
    ensures
        is_amount(mantissa, scale),
        units_of(mantissa, scale) == units,
{
    lemma_units_through(mantissa, scale, target);
}

impl Amount {
    /// What holds of every amount: it is not negative, has at most four
    /// fraction digits, and stays below `UNIT_LIMIT` ten-thousandths.
    #[verifier::type_invariant]
    pub closed spec fn wf(self) -> bool {
        is_amount(self.mantissa as int, self.scale as nat)
    }

    /// The mantissa that the amount is held with.
    pub closed spec fn spec_mantissa(self) -> i128 {
        self.mantissa
    }

    /// The scale that the amount is held with.
    pub closed spec fn spec_scale(self) -> u32 {
        self.scale
    }

    /// A well-formed amount is what its mantissa and scale say, and lies in
    /// range.
    pub proof fn lemma_wf(self)
        requires
            self.wf(),
        ensures
            is_amount(self.spec_mantissa() as int, self.spec_scale() as nat),
            self@ == units_of(self.spec_mantissa() as int, self.spec_scale() as nat),
            0 <= self@ < UNIT_LIMIT,
    {
        lemma_pow10_digit((FRACTION_DIGITS - self.scale) as nat);
    }

    /// The amount `mantissa / 10^scale`, where that is an amount.
    pub fn new(mantissa: i128, scale: u32) -> (r: Option<Amount>)
        ensures
            r is Some <==> is_amount(mantissa as int, scale as nat),
            r matches Some(a) ==> a.wf() && a.spec_mantissa() == mantissa && a.spec_scale()
                == scale && a@ == units_of(mantissa as int, scale as nat),
    {
        proof {
            lemma_pow10_small();
        }
        if mantissa < 0 || scale > FRACTION_DIGITS {
            return None;
        }
        let factor: i128 = if scale == 0 {
            10000
        } else if scale == 1 {
            1000
        } else if scale == 2 {
            100
        } else if scale == 3 {
            10
        } else {
            1
        };
        assert(factor == pow10((FRACTION_DIGITS - scale) as nat));
        let bound: i128 = (UNIT_LIMIT - 1) / factor;
        assert(bound * factor <= UNIT_LIMIT - 1 < (bound + 1) * factor);
        if mantissa > bound {
            assert(mantissa * factor >= UNIT_LIMIT) by (nonlinear_arith)
                requires
                    mantissa >= bound + 1,
                    UNIT_LIMIT - 1 < (bound + 1) * factor,
                    factor >= 1,
            ;
            return None;
        }
        assert(mantissa * factor < UNIT_LIMIT) by (nonlinear_arith)
            requires
                0 <= mantissa <= bound,
                bound * factor <= UNIT_LIMIT - 1,
                factor >= 1,
        ;
        Some(Amount { mantissa, scale })
    }

    /// Zero, written without fraction digits.
    pub fn zero() -> (r: Amount)
        ensures
            r.wf(),
            r@ == 0,
    {
        proof {
            lemma_pow10_small();
        }
        Amount { mantissa: 0, scale: 0 }
    }

    /// The whole number `n`, written without fraction digits.
    pub fn whole(n: u32) -> (r: Amount)
        ensures
            r.wf(),
            r@ == n * 10000,
    {
        proof {
            lemma_pow10_small();
        }
        Amount { mantissa: n as i128, scale: 0 }
    }

    /// The largest amount.
    pub fn largest() -> (r: Amount)
        ensures
            r.wf(),
            r@ == UNIT_LIMIT - 1,
    {
        proof {
            lemma_pow10_digit(0);
            assert(units_of(UNIT_LIMIT - 1, FRACTION_DIGITS as nat) == UNIT_LIMIT - 1);
        }
        Amount { mantissa: UNIT_LIMIT - 1, scale: FRACTION_DIGITS }
    }

    /// The mantissa that the amount is held with.
    pub fn mantissa(&self) -> (m: i128)
        ensures
            m == self.spec_mantissa(),
    {
        self.mantissa
    }

    /// The scale that the amount is held with.
    pub fn scale(&self) -> (s: u32)
        ensures
            s == self.spec_scale(),
    {
        self.scale
    }

    /// Whether `self` is below `other`.
    pub fn less_than(self, other: Amount) -> (r: bool)
        ensures
            r == (self@ < other@),
    {
        proof {
            use_type_invariant(&self);
            use_type_invariant(&other);
            lemma_aligned_units(self, other);
            let k = pow10(
                (FRACTION_DIGITS - common_scale(self.scale as nat, other.scale as nat)) as nat,
            );
            let x = aligned(self.mantissa as int, self.scale as nat, other.scale as nat);
            let y = aligned(other.mantissa as int, other.scale as nat, self.scale as nat);
            assert((x < y) == (x * k < y * k)) by (nonlinear_arith)
                requires
                    k >= 1,
            ;
        }
        decimal_lt(self.mantissa, self.scale, other.mantissa, other.scale)
    }

    /// The sum of two amounts, where it is an amount.
    pub fn plus(self, other: Amount) -> (r: Amount)
        requires
            self@ + other@ < UNIT_LIMIT,
        ensures
            r.wf(),
            r@ == self@ + other@,
    {
        proof {
            use_type_invariant(&self);
            use_type_invariant(&other);
            lemma_aligned_units(self, other);
        }
        let (mantissa, scale) = decimal_add(self.mantissa, self.scale, other.mantissa, other.scale);
        proof {
            let target = common_scale(self.scale as nat, other.scale as nat);
            let k = pow10((FRACTION_DIGITS - target) as nat);
            let x = aligned(self.mantissa as int, self.scale as nat, other.scale as nat);
            let y = aligned(other.mantissa as int, other.scale as nat, self.scale as nat);
            assert((x + y) * k == x * k + y * k) by (nonlinear_arith);
            lemma_result_units(mantissa as int, scale as nat, target, x + y, self@ + other@);
        }
        Amount { mantissa, scale }
    }

    /// The difference of two amounts, the second not above the first.
    pub fn minus(self, other: Amount) -> (r: Amount)
        requires
            other@ <= self@,
        ensures
            r.wf(),
            r@ == self@ - other@,
    {
        proof {
            use_type_invariant(&self);
            use_type_invariant(&other);
            lemma_aligned_units(self, other);
            let k = pow10(
                (FRACTION_DIGITS - common_scale(self.scale as nat, other.scale as nat)) as nat,
            );
            let x = aligned(self.mantissa as int, self.scale as nat, other.scale as nat);
            let y = aligned(other.mantissa as int, other.scale as nat, self.scale as nat);
            assert((y <= x) == (y * k <= x * k)) by (nonlinear_arith)
                requires
                    k >= 1,
            ;
        }
        let (mantissa, scale) = decimal_sub(self.mantissa, self.scale, other.mantissa, other.scale);
        proof {
            let target = common_scale(self.scale as nat, other.scale as nat);
            let k = pow10((FRACTION_DIGITS - target) as nat);
            let x = aligned(self.mantissa as int, self.scale as nat, other.scale as nat);
            let y = aligned(other.mantissa as int, other.scale as nat, self.scale as nat);
            assert((x - y) * k == x * k - y * k) by (nonlinear_arith);
            lemma_result_units(mantissa as int, scale as nat, target, x - y, self@ - other@);
        }
        Amount { mantissa, scale }
    }

    /// The sum of two amounts, or `None` where the sum is too large to be an
    /// amount.
    pub fn checked_add(self, other: Amount) -> (r: Option<Amount>)
        ensures
            r is Some <==> self@ + other@ < UNIT_LIMIT,
            r matches Some(sum) ==> sum.wf() && sum@ == self@ + other@,
    {
        proof {
            use_type_invariant(&self);
            use_type_invariant(&other);
            self.lemma_wf();
            other.lemma_wf();
        }
        let room = Amount::largest().minus(self);
        if room.less_than(other) {
            None
        } else {
            Some(self.plus(other))
        }
    }

    /// The number of ten-thousandths in the amount.
    pub fn units(&self) -> (n: i128)
        ensures
            n == self@,
    {
        proof {
            use_type_invariant(self);
            lemma_pow10_digit((FRACTION_DIGITS - self.scale) as nat);
        }
        if self.scale == 0 {
            self.mantissa * 10000
        } else if self.scale == 1 {
            self.mantissa * 1000
        } else if self.scale == 2 {
            self.mantissa * 100
        } else if self.scale == 3 {
            self.mantissa * 10
        } else {
            self.mantissa
        }
    }
}

impl PartialEq for Amount {
    /// Two amounts are equal where they stand for the same number, whatever
    /// scale each is held with.
    fn eq(&self, other: &Amount) -> (r: bool) {
        self.units() == other.units()
    }
}

impl PartialEqSpecImpl for Amount {
    open spec fn obeys_eq_spec() -> bool {
        true
    }

    open spec fn eq_spec(&self, other: &Amount) -> bool {
        self@ == other@
    }
}

impl Eq for Amount {

}

} // verus!
