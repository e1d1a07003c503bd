//! The measurement collection and the analysis built on it.
//!
//! An analysis runs in four steps. The expected arrival of each photon is its
//! measured arrival less the delay of the active dispersion model, and the
//! measured arrival itself where no model is active. The residual of each
//! measurement is its measured less its expected arrival, and its significance
//! the absolute residual over the measurement error. The weighted sums of the
//! residuals give the goodness-of-fit statistic. The result reports the
//! verdict on the statistic and the number of anomalous measurements.
//!
//! The library keeps the measurements and takes every decision: which
//! expected arrival belongs to which measurement, which residuals are
//! anomalous, which measurements carry no weight, which p-value applies and
//! what the verdict is. The differences, quotients, sums and the exponential
//! are the caller's, who hands them over as [`Residual`] and [`WeightedSums`].
//!
//! The expected arrival under a model is defined from the measured arrival of
//! the same photon, so that the residual is the model's delay: it tests the
//! delay law against the timing errors, not against an independent baseline.

use vstd::prelude::*;
use vstd::arithmetic::power2::pow2;
use vstd::arithmetic::power2::lemma_pow2_strictly_increases;
use crate::binary64::Binary64;
use crate::binary64::lemma_constant_values;
use crate::statistics::SpeedOfLightHypothesisTest;

verus! {

/// The bit pattern of `1e-12`, the sensitivity threshold of a new analyzer.
pub const DEFAULT_SENSITIVITY_BITS: u64 = 0x3D71_9799_812D_EA11;

/// One timing measurement of a gamma-ray photon.
#[derive(Debug, Clone, Copy)]
pub struct TimingData {
    /// Energy in GeV.
    pub energy: Binary64,
    /// Arrival time in seconds since the Unix epoch.
    pub arrival_time: Binary64,
    /// Standard deviation of the timing error in seconds.
    pub error: Binary64,
}

impl TimingData {
    /// A measurement has a weight only if its error is greater than zero.
    pub open spec fn spec_is_usable(self) -> bool {
        self.error.gt(Binary64::spec_zero())
    }

    /// Whether the measurement can enter the weighted sums: its error is
    /// greater than zero.
    pub fn is_usable(&self) -> (r: bool)
        ensures
            r == self.spec_is_usable(),
    {
        self.error.is_greater_than(Binary64::zero())
    }
}

/// The parameters of a dispersion model: a delay of
/// `quantum_gravity_effect * energy^2 / c^2` for a photon of the given energy.
#[derive(Debug, Clone, Copy)]
pub struct QuantumGravityModel {
    pub planck_length: Binary64,
    pub quantum_gravity_effect: Binary64,
    pub energy_scale: Binary64,
}

/// What the residual arithmetic gives for one measurement.
#[derive(Debug, Clone, Copy)]
pub struct Residual {
    /// The arrival time expected under the active model.
    pub expected_time: Binary64,
    /// Measured less expected arrival time.
    pub deviation: Binary64,
    /// The absolute deviation over the measurement error.
    pub significance: Binary64,
}

impl Residual {
    /// A residual is anomalous where its significance is greater than three.
    pub open spec fn spec_is_anomalous(self) -> bool {
        self.significance.gt(Binary64::spec_three())
    }

    /// Whether the significance is greater than three.
    pub fn is_anomalous(&self) -> (r: bool)
        ensures
            r == self.spec_is_anomalous(),
    {
        self.significance.is_greater_than(Binary64::three())
    }
}

/// What the weighted sums over the residuals give, with `weight = 1 / error^2`.
#[derive(Debug, Clone, Copy)]
pub struct WeightedSums {
    /// The sum of `weight * deviation^2`: the goodness-of-fit statistic.
    pub chi_squared: Binary64,
    /// The sum of the weights.
    pub total_weight: Binary64,
    /// The sum of `weight * deviation` over the sum of the weights.
    pub mean_deviation: Binary64,
    /// `1 - exp(-chi_squared / 2)`.
    pub estimated_p_value: Binary64,
    /// `1 - estimated_p_value`.
    pub estimated_confidence: Binary64,
}

/// The outcome of an analysis.
#[derive(Debug, Clone, Copy)]
pub struct LightSpeedTestResult {
    /// Whether the p-value is greater than one twentieth.
    pub is_valid: bool,
    /// `1 - p_value`.
    pub confidence_level: Binary64,
    /// The weighted mean of the deviations, where there is any weight.
    pub deviation_estimate: Option<Binary64>,
    /// The goodness-of-fit statistic.
    pub chi_squared: Binary64,
    /// The approximate significance of the statistic.
    pub p_value: Binary64,
    /// The number of anomalous measurements.
    pub anomalies_detected: usize,
}

/// One anomalous measurement.
#[derive(Debug, Clone, Copy)]
pub struct AnomalyDetectionResult {
    pub energy: Binary64,
    pub measured_time: Binary64,
    pub expected_time: Binary64,
    pub deviation: Binary64,
    pub significance: Binary64,
}

/// The positions below `n` at which `flags` holds, in ascending order.
pub open spec fn positions_where(flags: Seq<bool>, n: nat) -> Seq<int>
    decreases n,
{
    if n == 0 {
        Seq::empty()
    } else if flags[n - 1] {
        positions_where(flags, (n - 1) as nat).push(n - 1)
    } else {
        positions_where(flags, (n - 1) as nat)
    }
}

/// For each residual, whether it is anomalous.
pub open spec fn anomaly_flags(residuals: Seq<Residual>) -> Seq<bool> {
    Seq::new(residuals.len(), |i: int| residuals[i].spec_is_anomalous())
}

/// For each measurement, whether it is unusable.
pub open spec fn unusable_flags(measurements: Seq<TimingData>) -> Seq<bool> {
    Seq::new(measurements.len(), |i: int| !measurements[i].spec_is_usable())
}

/// The record of a measurement with its residual.
pub open spec fn anomaly_record(measurement: TimingData, residual: Residual)
    -> AnomalyDetectionResult {
    AnomalyDetectionResult {
        energy: measurement.energy,
        measured_time: measurement.arrival_time,
        expected_time: residual.expected_time,
        deviation: residual.deviation,
        significance: residual.significance,
    }
}

/// The records of the anomalous residuals among the first `n`, in the order of
/// the measurements.
pub open spec fn anomalies_among(
    measurements: Seq<TimingData>,
    residuals: Seq<Residual>,
    n: nat,
) -> Seq<AnomalyDetectionResult>
    decreases n,
{
    if n == 0 {
        Seq::empty()
    } else if residuals[n - 1].spec_is_anomalous() {
        anomalies_among(measurements, residuals, (n - 1) as nat).push(
            anomaly_record(measurements[n - 1], residuals[n - 1]),
        )
    } else {
        anomalies_among(measurements, residuals, (n - 1) as nat)
    }
}

/// The smaller of two lengths.
pub open spec fn shorter(a: nat, b: nat) -> nat {
    if a <= b {
        a
    } else {
        b
    }
}

/// The result for an empty collection.
pub open spec fn spec_trivial_result() -> LightSpeedTestResult {
    LightSpeedTestResult {
        is_valid: true,
        confidence_level: Binary64::spec_zero(),
        deviation_estimate: None,
        chi_squared: Binary64::spec_zero(),
        p_value: Binary64::spec_one(),
        anomalies_detected: 0,
    }
}

/// The ordered collection of measurements, with the settings of an analysis.
pub struct GammaRayAnalyzer {
    /// The measurements, in the order in which they were added.
    pub measurements: Vec<TimingData>,
    /// A threshold kept for the caller; no decision of the analysis reads it.
    pub sensitivity_threshold: Binary64,
    /// The active dispersion model, if any.
    pub quantum_gravity_model: Option<QuantumGravityModel>,
}

impl GammaRayAnalyzer {
    /// The expected arrivals: each measurement's energy with its own arrival
    /// time where no model is active, else with the dispersed arrival at its
    /// position, as far as those reach.
    pub open spec fn spec_expected_arrivals(self, dispersed_arrivals: Seq<Binary64>) -> Seq<
        (Binary64, Binary64),
    > {
        if self.quantum_gravity_model is None {
            Seq::new(
                self.measurements@.len(),
                |i: int| (self.measurements@[i].energy, self.measurements@[i].arrival_time),
            )
        } else {
            Seq::new(
                shorter(self.measurements@.len(), dispersed_arrivals.len()),
                |i: int| (self.measurements@[i].energy, dispersed_arrivals[i]),
            )
        }
    }

    /// The anomalies: the records of the anomalous residuals, as far as
    /// measurements and residuals both reach.
    pub open spec fn spec_detect_anomalies(self, residuals: Seq<Residual>) -> Seq<
        AnomalyDetectionResult,
    > {
        anomalies_among(
            self.measurements@,
            residuals,
            shorter(self.measurements@.len(), residuals.len()),
        )
    }

    /// The result of the analysis.
    pub open spec fn spec_test_light_speed_constancy(
        self,
        sums: WeightedSums,
        residuals: Seq<Residual>,
    ) -> LightSpeedTestResult {
        let count = self.measurements@.len();
        let p_value = SpeedOfLightHypothesisTest::spec_p_value(
            count,
            sums.chi_squared,
            sums.estimated_p_value,
        );
        if count == 0 {
            spec_trivial_result()
        } else {
            LightSpeedTestResult {
                is_valid: SpeedOfLightHypothesisTest::spec_is_consistent(p_value),
                confidence_level: SpeedOfLightHypothesisTest::spec_confidence_level(
                    count,
                    sums.chi_squared,
                    sums.estimated_confidence,
                ),
                deviation_estimate: if sums.total_weight.gt(Binary64::spec_zero()) {
                    Some(sums.mean_deviation)
                } else {
                    None
                },
                chi_squared: sums.chi_squared,
                p_value,
                anomalies_detected: self.spec_detect_anomalies(residuals).len() as usize,
            }
        }
    }

    /// An analyzer without measurements and without a model, with a
    /// sensitivity threshold of `1e-12`.
    pub fn new() -> (r: GammaRayAnalyzer)
        ensures
            r.measurements@ == Seq::<TimingData>::empty(),
            r.sensitivity_threshold.bits == DEFAULT_SENSITIVITY_BITS,
            r.quantum_gravity_model is None,
    {
        GammaRayAnalyzer {
            measurements: Vec::new(),
            sensitivity_threshold: Binary64::from_bits(DEFAULT_SENSITIVITY_BITS),
            quantum_gravity_model: None,
        }
    }

    /// Appends a measurement. Nothing is checked and nothing is merged: every
    /// measurement is kept, behind those added before it.
    pub fn add_measurement(&mut self, energy: Binary64, arrival_time: Binary64, error: Binary64)
        ensures
            final(self).measurements@ == old(self).measurements@.push(
                (TimingData { energy, arrival_time, error }),
            ),
            final(self).sensitivity_threshold == old(self).sensitivity_threshold,
            final(self).quantum_gravity_model == old(self).quantum_gravity_model,
    {
        self.measurements.push(TimingData { energy, arrival_time, error });
    }

    /// Sets the sensitivity threshold.
    pub fn set_sensitivity_threshold(&mut self, threshold: Binary64)
        ensures
            final(self).sensitivity_threshold == threshold,
            final(self).measurements == old(self).measurements,
            final(self).quantum_gravity_model == old(self).quantum_gravity_model,
    {
        self.sensitivity_threshold = threshold;
    }

    /// Makes `model` the active dispersion model.
    pub fn enable_quantum_gravity_simulation(&mut self, model: QuantumGravityModel)
        ensures
            final(self).quantum_gravity_model == Some(model),
            final(self).measurements == old(self).measurements,
            final(self).sensitivity_threshold == old(self).sensitivity_threshold,
    {
        self.quantum_gravity_model = Some(model);
    }

    /// The number of measurements.
    pub fn count(&self) -> (r: usize)
        ensures
            r == self.measurements@.len(),
    {
        self.measurements.len()
    }

    /// The positions of the measurements that cannot enter the weighted sums,
    /// in ascending order: those whose error is not greater than zero.
    pub fn unusable_measurements(&self) -> (r: Vec<usize>)
        ensures
            r@.len() == positions_where(
                unusable_flags(self.measurements@),
                self.measurements@.len(),
            ).len(),
            forall|k: int|
                0 <= k < r@.len() ==> r@[k] as int == positions_where(
                    unusable_flags(self.measurements@),
                    self.measurements@.len(),
                )[k],
    {
        let mut found: Vec<usize> = Vec::new();
        let mut i: usize = 0;
        while i < self.measurements.len()
            invariant
                i <= self.measurements@.len(),
                found@.len() == positions_where(unusable_flags(self.measurements@), i as nat).len(),
                forall|k: int|
                    0 <= k < found@.len() ==> found@[k] as int == positions_where(
                        unusable_flags(self.measurements@),
                        i as nat,
                    )[k],
            decreases self.measurements@.len() - i,
        {
            if !self.measurements[i].is_usable() {
                found.push(i);
            }
            i += 1;
        }
        found
    }

    /// Pairs each measurement's energy with its expected arrival time.
    /// `dispersed_arrivals` holds, for each measurement in order, its arrival
    /// time less the delay of the active model; it is not read where no model
    /// is active, and the expected arrival is then the measured one.
    pub fn calculate_expected_arrivals(&self, dispersed_arrivals: &Vec<Binary64>) -> (r: Vec<
        (Binary64, Binary64),
    >)
        ensures
            r@ == self.spec_expected_arrivals(dispersed_arrivals@),
    {
        let active: bool = self.quantum_gravity_model.is_some();
        let mut expected: Vec<(Binary64, Binary64)> = Vec::new();
        let mut i: usize = 0;
        while i < self.measurements.len() && (!active || i < dispersed_arrivals.len())
            invariant
                active == (self.quantum_gravity_model is Some),
                i <= self.measurements@.len(),
                active ==> i <= dispersed_arrivals@.len(),
                expected@.len() == i,
                forall|k: int|
                    0 <= k < i ==> expected@[k] == (
                        self.measurements@[k].energy,
                        if active {
                            dispersed_arrivals@[k]
                        } else {
                            self.measurements@[k].arrival_time
                        },
                    ),
            decreases self.measurements@.len() - i,
        {
            let time: Binary64 = if active {
                dispersed_arrivals[i]
            } else {
                self.measurements[i].arrival_time
            };
            expected.push((self.measurements[i].energy, time));
            i += 1;
        }
        assert(expected@ =~= self.spec_expected_arrivals(dispersed_arrivals@));
        expected
    }

    /// The anomalous measurements, in the order of the measurements: one
    /// record for each position, as far as measurements and residuals both
    /// reach, whose significance is greater than three.
    pub fn detect_anomalies(&self, residuals: &Vec<Residual>) -> (r: Vec<AnomalyDetectionResult>)
        ensures
            r@ == self.spec_detect_anomalies(residuals@),
    {
        let mut anomalies: Vec<AnomalyDetectionResult> = Vec::new();
        let mut i: usize = 0;
        while i < self.measurements.len() && i < residuals.len()
            invariant
                i <= self.measurements@.len(),
                i <= residuals@.len(),
                anomalies@ == anomalies_among(self.measurements@, residuals@, i as nat),
            decreases self.measurements@.len() - i,
        {
            let measurement: TimingData = self.measurements[i];
            let residual: Residual = residuals[i];
            if residual.is_anomalous() {
                anomalies.push(
                    AnomalyDetectionResult {
                        energy: measurement.energy,
                        measured_time: measurement.arrival_time,
                        expected_time: residual.expected_time,
                        deviation: residual.deviation,
                        significance: residual.significance,
                    },
                );
            }
            i += 1;
        }
        anomalies
    }

    /// The result of the analysis. An empty collection gives the trivial
    /// result, whatever `sums` and `residuals` hold. Otherwise the statistic
    /// is that of `sums`, the p-value and the confidence level are the
    /// estimates of `sums` where an estimate applies and one and zero where
    /// none does, the deviation estimate is the mean deviation where the total
    /// weight is greater than zero, the verdict is that of the p-value, and
    /// the number of anomalies is the length of what `detect_anomalies` gives
    /// for `residuals`.
    pub fn test_light_speed_constancy(&self, sums: &WeightedSums, residuals: &Vec<Residual>) -> (r:
        LightSpeedTestResult)
        ensures
            r == self.spec_test_light_speed_constancy(*sums, residuals@),
    {
        let count: usize = self.measurements.len();
        if count == 0 {
            return LightSpeedTestResult {
                is_valid: true,
                confidence_level: Binary64::zero(),
                deviation_estimate: None,
                chi_squared: Binary64::zero(),
                p_value: Binary64::one(),
                anomalies_detected: 0,
            };
        }
        let p_value: Binary64 = SpeedOfLightHypothesisTest::p_value(
            count,
            sums.chi_squared,
            sums.estimated_p_value,
        );
        let confidence_level: Binary64 = SpeedOfLightHypothesisTest::confidence_level(
            count,
            sums.chi_squared,
            sums.estimated_confidence,
        );
        let deviation_estimate: Option<Binary64> = if sums.total_weight.is_greater_than(
            Binary64::zero(),
        ) {
            Some(sums.mean_deviation)
        } else {
            None
        };
        let anomalies: Vec<AnomalyDetectionResult> = self.detect_anomalies(residuals);
        LightSpeedTestResult {
            is_valid: SpeedOfLightHypothesisTest::is_consistent(p_value),
            confidence_level,
            deviation_estimate,
            chi_squared: sums.chi_squared,
            p_value,
            anomalies_detected: anomalies.len(),
        }
    }
}

/// `positions_where` lists exactly the positions below `n` at which `flags`
/// holds, each once and in ascending order.
pub proof fn lemma_positions_where(flags: Seq<bool>, n: nat)
    requires
        n <= flags.len(),
    ensures
        positions_where(flags, n).len() <= n,
        forall|k: int|
            0 <= k < positions_where(flags, n).len() ==> 0 <= #[trigger] positions_where(flags, n)[k]
                < n && flags[positions_where(flags, n)[k]],
        forall|j: int, k: int|
            0 <= j < k < positions_where(flags, n).len() ==> positions_where(flags, n)[j]
                < positions_where(flags, n)[k],
        forall|i: int|
            0 <= i < n && flags[i] ==> exists|k: int|
                0 <= k < positions_where(flags, n).len() && positions_where(flags, n)[k] == i,
    decreases n,
{
    if n > 0 {
        let before = positions_where(flags, (n - 1) as nat);
        let all = positions_where(flags, n);
        lemma_positions_where(flags, (n - 1) as nat);
        assert forall|i: int| 0 <= i < n && flags[i] implies exists|k: int|
            0 <= k < all.len() && all[k] == i by {
            if i < n - 1 {
                let k = choose|k: int| 0 <= k < before.len() && before[k] == i;
                assert(all[k] == i);
            } else {
                assert(all[before.len() as int] == i);
            }
        }
    }
}

/// The anomalies are the records of the anomalous positions, in ascending
/// order of position: the order of the measurements.
pub proof fn lemma_anomalies_follow_positions(
    measurements: Seq<TimingData>,
    residuals: Seq<Residual>,
    n: nat,
)
    requires
        n <= residuals.len(),
    ensures
        anomalies_among(measurements, residuals, n).len() == positions_where(
            anomaly_flags(residuals),
            n,
        ).len(),
        forall|k: int|
            0 <= k < anomalies_among(measurements, residuals, n).len() ==> #[trigger] anomalies_among(
                measurements,
                residuals,
                n,
            )[k] == anomaly_record(
                measurements[positions_where(anomaly_flags(residuals), n)[k]],
                residuals[positions_where(anomaly_flags(residuals), n)[k]],
            ),
    decreases n,
{
    if n > 0 {
        lemma_anomalies_follow_positions(measurements, residuals, (n - 1) as nat);
    }
}

/// A residual whose significance is a finite number is anomalous exactly if
/// that number is greater than three; one of exactly three is not. Positive
/// infinity is anomalous; negative infinity and what is not a number are not.
pub proof fn lemma_anomalous_above_three(residual: Residual)
    ensures
        residual.significance.is_finite() ==> (residual.spec_is_anomalous()
            <==> residual.significance.scaled() > 3 * pow2(1074)),
        residual.significance.is_infinite() ==> (residual.spec_is_anomalous()
            <==> !residual.significance.is_negative()),
        residual.significance.is_nan() ==> !residual.spec_is_anomalous(),
{
    lemma_constant_values();
}

/// A measurement whose error is a finite number is usable exactly if that
/// number is greater than zero. An error of positive infinity is usable; one
/// of negative infinity, or one that is not a number, is not.
pub proof fn lemma_usable_above_zero(measurement: TimingData)
    ensures
        measurement.error.is_finite() ==> (measurement.spec_is_usable()
            <==> measurement.error.scaled() > 0),
        measurement.error.is_infinite() ==> (measurement.spec_is_usable()
            <==> !measurement.error.is_negative()),
        measurement.error.is_nan() ==> !measurement.spec_is_usable(),
{
    lemma_constant_values();
}

/// Each expected arrival stands at the position of its measurement and
/// carries its energy; where no model is active there is one for every
/// measurement, and its time is the measured arrival time.
pub proof fn lemma_expected_arrivals_follow_measurements(
    analyzer: GammaRayAnalyzer,
    dispersed_arrivals: Seq<Binary64>,
)
    ensures
        analyzer.spec_expected_arrivals(dispersed_arrivals).len() <= analyzer.measurements@.len(),
        forall|i: int|
            0 <= i < analyzer.spec_expected_arrivals(dispersed_arrivals).len()
                ==> #[trigger] analyzer.spec_expected_arrivals(dispersed_arrivals)[i].0
                == analyzer.measurements@[i].energy,
        analyzer.quantum_gravity_model is None ==> analyzer.spec_expected_arrivals(
            dispersed_arrivals,
        ).len() == analyzer.measurements@.len(),
        analyzer.quantum_gravity_model is None ==> forall|i: int|
            0 <= i < analyzer.measurements@.len() ==> #[trigger] analyzer.spec_expected_arrivals(
                dispersed_arrivals,
            )[i].1 == analyzer.measurements@[i].arrival_time,
{
}

/// The number of anomalies in the result is the length of what the anomaly
/// detector gives for the same measurements and residuals.
pub proof fn lemma_anomaly_count_is_detector_length(
    analyzer: GammaRayAnalyzer,
    sums: WeightedSums,
    residuals: Seq<Residual>,
)
    ensures
        analyzer.spec_test_light_speed_constancy(sums, residuals).anomalies_detected
            == analyzer.spec_detect_anomalies(residuals).len(),
{
    lemma_anomalies_follow_positions(
        analyzer.measurements@,
        residuals,
        shorter(analyzer.measurements@.len(), residuals.len()),
    );
    lemma_positions_where(
        anomaly_flags(residuals),
        shorter(analyzer.measurements@.len(), residuals.len()),
    );
    assert(analyzer.measurements@.len() == analyzer.measurements.len());
}

/// Where every residual is zero, the measurements are consistent: with a
/// statistic of zero and significances of zero the p-value is one, the
/// confidence level zero, the verdict valid, and nothing is anomalous.
pub proof fn lemma_zero_residuals_are_consistent(
    analyzer: GammaRayAnalyzer,
    sums: WeightedSums,
    residuals: Seq<Residual>,
)
    requires
        sums.chi_squared.is_finite(),
        sums.chi_squared.scaled() == 0,
        forall|i: int|
            0 <= i < residuals.len() ==> (#[trigger] residuals[i]).significance.is_finite()
                && residuals[i].significance.scaled() == 0,
    ensures
        analyzer.spec_test_light_speed_constancy(sums, residuals).is_valid,
        analyzer.spec_test_light_speed_constancy(sums, residuals).p_value == Binary64::spec_one(),
        analyzer.spec_test_light_speed_constancy(sums, residuals).confidence_level
            == Binary64::spec_zero(),
        analyzer.spec_test_light_speed_constancy(sums, residuals).anomalies_detected == 0,
        analyzer.spec_detect_anomalies(residuals).len() == 0,
{
    lemma_constant_values();
    lemma_pow2_strictly_increases(1017, 1074);
    let n = shorter(analyzer.measurements@.len(), residuals.len());
    lemma_no_anomalies_among(analyzer.measurements@, residuals, n);
}

/// Where no residual among the first `n` is anomalous, there are no anomalies.
proof fn lemma_no_anomalies_among(measurements: Seq<TimingData>, residuals: Seq<Residual>, n: nat)
    requires
        n <= residuals.len(),
        forall|i: int| 0 <= i < n ==> !(#[trigger] residuals[i]).spec_is_anomalous(),
    ensures
        anomalies_among(measurements, residuals, n).len() == 0,
    decreases n,
{
    if n > 0 {
        lemma_no_anomalies_among(measurements, residuals, (n - 1) as nat);
    }
}

} // verus!
