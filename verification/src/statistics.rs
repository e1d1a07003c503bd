//! The decision rules of the residual evaluation: degrees of freedom, which
//! significance estimate applies, and the consistency verdict.
//!
//! The significance estimate `1 - exp(-statistic / 2)` is an approximation,
//! not the survival function of a chi-squared distribution: it ignores the
//! degrees of freedom but for their being zero or not.

use vstd::prelude::*;
use vstd::arithmetic::power2::pow2;
use crate::binary64::Binary64;
use crate::binary64::lemma_constant_values;

verus! {

/// The rules by which a goodness-of-fit statistic is judged.
pub struct SpeedOfLightHypothesisTest;

impl SpeedOfLightHypothesisTest {
    /// One less than the number of measurements, and zero for none.
    pub open spec fn spec_degrees_of_freedom(count: nat) -> nat {
        if count == 0 {
            0
        } else {
            (count - 1) as nat
        }
    }

    /// Whether the significance is estimated from the statistic: with at least
    /// one degree of freedom and a statistic greater than zero. Otherwise the
    /// p-value is one.
    pub open spec fn spec_is_estimated(count: nat, chi_squared: Binary64) -> bool {
        Self::spec_degrees_of_freedom(count) > 0 && chi_squared.gt(Binary64::spec_zero())
    }

    /// The p-value: the caller's estimate where one applies, else one.
    pub open spec fn spec_p_value(count: nat, chi_squared: Binary64, estimate: Binary64) -> Binary64 {
        if Self::spec_is_estimated(count, chi_squared) {
            estimate
        } else {
            Binary64::spec_one()
        }
    }

    /// The confidence level, `1 - p_value`: the caller's value where the
    /// p-value is an estimate, else zero.
    pub open spec fn spec_confidence_level(
        count: nat,
        chi_squared: Binary64,
        complement: Binary64,
    ) -> Binary64 {
        if Self::spec_is_estimated(count, chi_squared) {
            complement
        } else {
            Binary64::spec_zero()
        }
    }

    /// The verdict at 95% confidence: the measurements are consistent with a
    /// constant speed of light when the p-value is greater than one twentieth.
    pub open spec fn spec_is_consistent(p_value: Binary64) -> bool {
        p_value.gt(Binary64::spec_one_twentieth())
    }

    /// The degrees of freedom of a fit over `count` measurements.
    pub fn degrees_of_freedom(count: usize) -> (r: usize)
        ensures
            r == Self::spec_degrees_of_freedom(count as nat),
    {
        if count == 0 {
            0
        } else {
            count - 1
        }
    }

    /// Whether the significance of `chi_squared` over `count` measurements is
    /// estimated from the statistic.
    pub fn is_estimated(count: usize, chi_squared: Binary64) -> (r: bool)
        ensures
            r == Self::spec_is_estimated(count as nat, chi_squared),
    {
        Self::degrees_of_freedom(count) > 0 && chi_squared.is_greater_than(Binary64::zero())
    }

    /// The p-value of `chi_squared` over `count` measurements, where `estimate`
    /// is `1 - exp(-chi_squared / 2)`.
    pub fn p_value(count: usize, chi_squared: Binary64, estimate: Binary64) -> (r: Binary64)
        ensures
            r == Self::spec_p_value(count as nat, chi_squared, estimate),
    {
        if Self::is_estimated(count, chi_squared) {
            estimate
        } else {
            Binary64::one()
        }
    }

    /// The confidence level of `chi_squared` over `count` measurements, where
    /// `complement` is `1 - estimate` for the estimated p-value.
    pub fn confidence_level(count: usize, chi_squared: Binary64, complement: Binary64) -> (r:
        Binary64)
        ensures
            r == Self::spec_confidence_level(count as nat, chi_squared, complement),
    {
        if Self::is_estimated(count, chi_squared) {
            complement
        } else {
            Binary64::zero()
        }
    }

    /// Whether `p_value` is greater than one twentieth.
    pub fn is_consistent(p_value: Binary64) -> (r: bool)
        ensures
            r == Self::spec_is_consistent(p_value),
    {
        p_value.is_greater_than(Binary64::one_twentieth())
    }
}

/// An estimate applies exactly with at least two measurements and a
/// statistic that is positive infinity or a finite number greater than zero.
pub proof fn lemma_estimated_above_zero(count: nat, chi_squared: Binary64)
    ensures
        chi_squared.is_finite() ==> (SpeedOfLightHypothesisTest::spec_is_estimated(
            count,
            chi_squared,
        ) <==> count >= 2 && chi_squared.scaled() > 0),
        chi_squared.is_infinite() ==> (SpeedOfLightHypothesisTest::spec_is_estimated(
            count,
            chi_squared,
        ) <==> count >= 2 && !chi_squared.is_negative()),
        chi_squared.is_nan() ==> !SpeedOfLightHypothesisTest::spec_is_estimated(count, chi_squared),
{
    lemma_constant_values();
}

/// The verdict on a finite p-value, in units of `2^-1074`: valid exactly if
/// twenty times the p-value is more than one and `8 × 2^1017`. A valid
/// p-value is therefore greater than one twentieth, and a p-value of one is
/// valid.
pub proof fn lemma_consistent_above_one_twentieth(p_value: Binary64)
    requires
        p_value.is_finite(),
    ensures
        SpeedOfLightHypothesisTest::spec_is_consistent(p_value) <==> 20 * p_value.scaled() > pow2(
            1074,
        ) + 8 * pow2(1017),
        SpeedOfLightHypothesisTest::spec_is_consistent(p_value) ==> 20 * p_value.scaled() > pow2(
            1074,
        ),
        SpeedOfLightHypothesisTest::spec_is_consistent(Binary64::spec_one()),
{
    lemma_constant_values();
    vstd::arithmetic::power2::lemma_pow2_strictly_increases(1017, 1074);
}

} // verus!
