//! Currency-tagged price values with canonical (chaos-equivalent) comparison
//! and arithmetic.
//!
//! Amounts are fixed-point integers counting micro-units (one millionth of an
//! orb) of the tagged currency. The chaos-per-divine conversion rate is an
//! injected configuration value, not a compiled-in constant. Every comparison
//! and every arithmetic operation reduces both operands to the canonical
//! scalar `chaos_micro`, the value expressed in micro-chaos; the results of
//! `add` and `sub` always carry the `Chaos` tag (the single normalization
//! rule of this library).

use vstd::prelude::*;

verus! {

/// Micro-units per whole orb: amounts are stored scaled by this factor.
pub const MICRO_PER_UNIT: i64 = 1_000_000;

/// Largest conversion rate (micro-chaos per micro-divine) this library accepts.
pub const RATIO_MAX: i64 = 100_000;

/// Bound on the canonical scalar of any well-formed price, chosen so that the
/// scalar of every well-formed price fits in `i64`.
pub const CANON_LIMIT: i64 = 9_000_000_000_000_000_000;

/// Largest micro-amount that is well-formed under every accepted conversion
/// rate (`CANON_LIMIT / RATIO_MAX`).
pub const SAFE_AMOUNT_MICRO: i64 = 90_000_000_000_000;

/// The two currency units a price can be quoted in.
#[derive(Clone, Copy, PartialEq, Eq, Structural, Debug)]
pub enum CurrencyOrbType {
    Chaos,
    Divine,
}

/// How many chaos orbs one divine orb is worth; injected configuration.
#[derive(Clone, Copy, Debug)]
pub struct ConversionRate {
    pub chaos_per_divine: i64,
}

impl ConversionRate {
    /// An accepted rate: at least one, at most `RATIO_MAX`.
    pub open spec fn wf(self) -> bool {
        1 <= self.chaos_per_divine <= RATIO_MAX
    }

    pub fn new(chaos_per_divine: i64) -> (r: ConversionRate)
        requires
            1 <= chaos_per_divine <= RATIO_MAX,
        ensures
            r.chaos_per_divine == chaos_per_divine,
            r.wf(),
    {
        ConversionRate { chaos_per_divine }
    }
}

/// An amount of micro-units of one currency.
#[derive(Clone, Copy, Debug)]
pub struct Price {
    pub amount_micro: i64,
    pub currency_orb: CurrencyOrbType,
}

impl Price {
    /// The canonical scalar: this price expressed in micro-chaos.
    pub open spec fn chaos_micro(self, rate: ConversionRate) -> int {
        match self.currency_orb {
            CurrencyOrbType::Divine => self.amount_micro * rate.chaos_per_divine,
            CurrencyOrbType::Chaos => self.amount_micro as int,
        }
    }

    /// Well-formed under `rate`: the canonical scalar is representable.
    pub open spec fn wf(self, rate: ConversionRate) -> bool {
        -CANON_LIMIT <= self.chaos_micro(rate) <= CANON_LIMIT
    }

    /// A price whose micro-amount does not exceed `SAFE_AMOUNT_MICRO` in
    /// magnitude is well-formed under every accepted rate.
    pub proof fn lemma_safe_amount_wf(self, rate: ConversionRate)
        requires
            rate.wf(),
            -SAFE_AMOUNT_MICRO <= self.amount_micro <= SAFE_AMOUNT_MICRO,
        ensures
            self.wf(rate),
    {
        assert(-CANON_LIMIT <= self.amount_micro * rate.chaos_per_divine <= CANON_LIMIT)
            by (nonlinear_arith)
            requires
                -SAFE_AMOUNT_MICRO <= self.amount_micro <= SAFE_AMOUNT_MICRO,
                1 <= rate.chaos_per_divine <= RATIO_MAX,
        ;
    }

    /// Construct a quoted amount. Marketplace quotes are nonnegative.
    pub fn new(amount_micro: i64, currency_orb: CurrencyOrbType) -> (r: Price)
        requires
            0 <= amount_micro <= SAFE_AMOUNT_MICRO,
        ensures
            r.amount_micro == amount_micro,
            r.currency_orb == currency_orb,
            forall|rate: ConversionRate| rate.wf() ==> r.wf(rate),
    {
        let r = Price { amount_micro, currency_orb };
        proof {
            assert forall|rate: ConversionRate| rate.wf() implies r.wf(rate) by {
                r.lemma_safe_amount_wf(rate);
            }
        }
        r
    }

    /// The identity element for summation; its canonical scalar is zero under
    /// every rate.
    pub fn zero() -> (r: Price)
        ensures
            r.amount_micro == 0,
            r.currency_orb == CurrencyOrbType::Divine,
            forall|rate: ConversionRate| r.chaos_micro(rate) == 0,
            forall|rate: ConversionRate| rate.wf() ==> r.wf(rate),
    {
        Price { amount_micro: 0, currency_orb: CurrencyOrbType::Divine }
    }

    /// The canonical scalar, computed: micro-chaos.
    pub fn as_chaos(&self, rate: &ConversionRate) -> (r: i64)
        requires
            rate.wf(),
            self.wf(*rate),
        ensures
            r == self.chaos_micro(*rate),
    {
        match self.currency_orb {
            CurrencyOrbType::Divine => self.amount_micro * rate.chaos_per_divine,
            CurrencyOrbType::Chaos => self.amount_micro,
        }
    }

    /// This price expressed in micro-divine, truncated toward zero.
    pub open spec fn divine_micro(self, rate: ConversionRate) -> int {
        let c = self.chaos_micro(rate);
        if c >= 0 {
            c / (rate.chaos_per_divine as int)
        } else {
            -((-c) / (rate.chaos_per_divine as int))
        }
    }

    /// The value in micro-divine, computed; truncated toward zero.
    pub fn as_divine(&self, rate: &ConversionRate) -> (r: i64)
        requires
            rate.wf(),
            self.wf(*rate),
        ensures
            r == self.divine_micro(*rate),
    {
        let c = self.as_chaos(rate);
        if c >= 0 {
            proof {
                lemma_div_between(c as int, rate.chaos_per_divine as int);
            }
            c / rate.chaos_per_divine
        } else {
            proof {
                lemma_div_between(-c as int, rate.chaos_per_divine as int);
            }
            -((-c) / rate.chaos_per_divine)
        }
    }

    /// What `convert` returns: the same amount retagged, multiplying on the
    /// way to chaos (exact) and dividing on the way to divine (truncated).
    pub open spec fn spec_convert(self, target: CurrencyOrbType, rate: ConversionRate) -> Price {
        if self.currency_orb == target {
            self
        } else {
            match target {
                CurrencyOrbType::Chaos => Price {
                    amount_micro: (self.amount_micro * rate.chaos_per_divine) as i64,
                    currency_orb: CurrencyOrbType::Chaos,
                },
                CurrencyOrbType::Divine => Price {
                    amount_micro: (self.amount_micro as int / rate.chaos_per_divine as int) as i64,
                    currency_orb: CurrencyOrbType::Divine,
                },
            }
        }
    }

    /// Re-express this price in `target` units. Divine-to-chaos is exact;
    /// chaos-to-divine truncates to the micro-divine below.
    pub fn convert(&self, target: CurrencyOrbType, rate: &ConversionRate) -> (r: Price)
        requires
            rate.wf(),
            self.wf(*rate),
            self.amount_micro >= 0,
        ensures
            r == self.spec_convert(target, *rate),
            r.currency_orb == target,
            r.wf(*rate),
            r.amount_micro >= 0,
            // canonical value never grows, and shrinks by less than one divine
            0 <= self.chaos_micro(*rate) - r.chaos_micro(*rate) < rate.chaos_per_divine,
    {
        let rd = rate.chaos_per_divine;
        if self.currency_orb == target {
            *self
        } else {
            match target {
                CurrencyOrbType::Chaos => {
                    Price { amount_micro: self.amount_micro * rd, currency_orb: CurrencyOrbType::Chaos }
                },
                CurrencyOrbType::Divine => {
                    let q = self.amount_micro / rd;
                    proof {
                        lemma_div_between(self.amount_micro as int, rd as int);
                        vstd::arithmetic::div_mod::lemma_fundamental_div_mod(
                            self.amount_micro as int,
                            rd as int,
                        );
                        vstd::arithmetic::mul::lemma_mul_is_commutative(q as int, rd as int);
                        assert(q * rd == self.amount_micro - self.amount_micro % rd);
                        vstd::arithmetic::div_mod::lemma_mod_bound(self.amount_micro as int, rd as int);
                    }
                    Price { amount_micro: q, currency_orb: CurrencyOrbType::Divine }
                },
            }
        }
    }

    /// Converting to another unit and back returns to the same unit and loses
    /// less than one divine's worth of value; it is exact whenever the first
    /// conversion multiplied (divine to chaos) or did nothing.
    pub proof fn lemma_convert_round_trip(self, other: CurrencyOrbType, rate: ConversionRate)
        requires
            rate.wf(),
            self.wf(rate),
            self.amount_micro >= 0,
        ensures
            ({
                let rt = self.spec_convert(other, rate).spec_convert(self.currency_orb, rate);
                &&& rt.currency_orb == self.currency_orb
                &&& 0 <= self.chaos_micro(rate) - rt.chaos_micro(rate) < rate.chaos_per_divine
                &&& (self.currency_orb == other || self.currency_orb == CurrencyOrbType::Divine)
                    ==> rt == self
            }),
    {
        let rd = rate.chaos_per_divine as int;
        let once = self.spec_convert(other, rate);
        if self.currency_orb == other {
        } else {
            match self.currency_orb {
                CurrencyOrbType::Divine => {
                    // divine -> chaos multiplies, chaos -> divine divides the
                    // product evenly: the round trip is the identity
                    let a = self.amount_micro as int;
                    vstd::arithmetic::div_mod::lemma_div_multiples_vanish(a, rd);
                    vstd::arithmetic::mul::lemma_mul_is_commutative(a, rd);
                    assert((a * rd) / rd == a);
                },
                CurrencyOrbType::Chaos => {
                    let a = self.amount_micro as int;
                    let q = a / rd;
                    lemma_div_between(a, rd);
                    vstd::arithmetic::div_mod::lemma_fundamental_div_mod(a, rd);
                    vstd::arithmetic::div_mod::lemma_mod_bound(a, rd);
                    vstd::arithmetic::mul::lemma_mul_is_commutative(q, rd);
                    assert(q * rd == a - a % rd);
                },
            }
        }
    }

    /// Strict canonical order.
    pub open spec fn spec_lt(self, other: Price, rate: ConversionRate) -> bool {
        self.chaos_micro(rate) < other.chaos_micro(rate)
    }

    /// `self < other` in canonical order.
    pub fn lt(&self, other: &Price, rate: &ConversionRate) -> (r: bool)
        requires
            rate.wf(),
            self.wf(*rate),
            other.wf(*rate),
        ensures
            r == self.spec_lt(*other, *rate),
    {
        self.as_chaos(rate) < other.as_chaos(rate)
    }

    /// Canonical equality: two prices are the same value exactly when their
    /// canonical scalars agree, regardless of the stored unit.
    pub fn eq_at(&self, other: &Price, rate: &ConversionRate) -> (r: bool)
        requires
            rate.wf(),
            self.wf(*rate),
            other.wf(*rate),
        ensures
            r == (self.chaos_micro(*rate) == other.chaos_micro(*rate)),
    {
        self.as_chaos(rate) == other.as_chaos(rate)
    }

    /// The canonical order is total: of any two prices, one is below the
    /// other or their canonical scalars coincide.
    pub proof fn lemma_order_total(a: Price, b: Price, rate: ConversionRate)
        ensures
            a.spec_lt(b, rate) || b.spec_lt(a, rate) || a.chaos_micro(rate) == b.chaos_micro(rate),
    {
    }

    /// The canonical order is transitive.
    pub proof fn lemma_order_transitive(a: Price, b: Price, c: Price, rate: ConversionRate)
        requires
            a.spec_lt(b, rate),
            b.spec_lt(c, rate),
        ensures
            a.spec_lt(c, rate),
    {
    }

    /// Checked addition; both operands are reduced to the canonical unit and
    /// the result carries the `Chaos` tag. `None` exactly when the sum leaves
    /// the representable range.
    pub fn add(&self, rhs: &Price, rate: &ConversionRate) -> (r: Option<Price>)
        requires
            rate.wf(),
            self.wf(*rate),
            rhs.wf(*rate),
        ensures
            ({
                let s = self.chaos_micro(*rate) + rhs.chaos_micro(*rate);
                match r {
                    Some(p) => {
                        &&& -CANON_LIMIT <= s <= CANON_LIMIT
                        &&& p.amount_micro == s
                        &&& p.currency_orb == CurrencyOrbType::Chaos
                        &&& p.wf(*rate)
                    },
                    None => !(-CANON_LIMIT <= s <= CANON_LIMIT),
                }
            }),
    {
        let a = self.as_chaos(rate);
        let b = rhs.as_chaos(rate);
        let s: i128 = a as i128 + b as i128;
        if -CANON_LIMIT as i128 <= s && s <= CANON_LIMIT as i128 {
            Some(Price { amount_micro: s as i64, currency_orb: CurrencyOrbType::Chaos })
        } else {
            None
        }
    }

    /// Checked subtraction, under the same normalization rule as `add`.
    pub fn sub(&self, rhs: &Price, rate: &ConversionRate) -> (r: Option<Price>)
        requires
            rate.wf(),
            self.wf(*rate),
            rhs.wf(*rate),
        ensures
            ({
                let s = self.chaos_micro(*rate) - rhs.chaos_micro(*rate);
                match r {
                    Some(p) => {
                        &&& -CANON_LIMIT <= s <= CANON_LIMIT
                        &&& p.amount_micro == s
                        &&& p.currency_orb == CurrencyOrbType::Chaos
                        &&& p.wf(*rate)
                    },
                    None => !(-CANON_LIMIT <= s <= CANON_LIMIT),
                }
            }),
    {
        let a = self.as_chaos(rate);
        let b = rhs.as_chaos(rate);
        let s: i128 = a as i128 - b as i128;
        if -CANON_LIMIT as i128 <= s && s <= CANON_LIMIT as i128 {
            Some(Price { amount_micro: s as i64, currency_orb: CurrencyOrbType::Chaos })
        } else {
            None
        }
    }

    /// Compound addition: the same single rule as `add` (normalize to chaos),
    /// not a second code path. Returns whether the sum was representable; on
    /// `false` the receiver is unchanged.
    pub fn add_assign(&mut self, rhs: &Price, rate: &ConversionRate) -> (ok: bool)
        requires
            rate.wf(),
            old(self).wf(*rate),
            rhs.wf(*rate),
        ensures
            ({
                let s = old(self).chaos_micro(*rate) + rhs.chaos_micro(*rate);
                if ok {
                    &&& -CANON_LIMIT <= s <= CANON_LIMIT
                    &&& final(self).amount_micro == s
                    &&& final(self).currency_orb == CurrencyOrbType::Chaos
                    &&& final(self).wf(*rate)
                } else {
                    &&& !(-CANON_LIMIT <= s <= CANON_LIMIT)
                    &&& *final(self) == *old(self)
                }
            }),
    {
        match self.add(rhs, rate) {
            Some(p) => {
                *self = p;
                true
            },
            None => false,
        }
    }
}

/// For positive `d` and nonnegative `a`, the quotient lies between zero and `a`.
proof fn lemma_div_between(a: int, d: int)
    requires
        0 <= a,
        1 <= d,
    ensures
        0 <= a / d <= a,
{
    vstd::arithmetic::div_mod::lemma_div_nonincreasing(a, d);
    vstd::arithmetic::div_mod::lemma_div_pos_is_pos(a, d);
}

} // verus!



