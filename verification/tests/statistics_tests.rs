use lightspeedvalidator::binary64::Binary64;
use lightspeedvalidator::SpeedOfLightHypothesisTest;

fn number(value: f64) -> Binary64 {
    Binary64::from_bits(value.to_bits())
}

fn value(number: Binary64) -> f64 {
    f64::from_bits(number.to_bits())
}

#[test]
fn degrees_of_freedom_are_one_less_than_the_count() {
    assert_eq!(SpeedOfLightHypothesisTest::degrees_of_freedom(0), 0);
    assert_eq!(SpeedOfLightHypothesisTest::degrees_of_freedom(1), 0);
    assert_eq!(SpeedOfLightHypothesisTest::degrees_of_freedom(2), 1);
    assert_eq!(SpeedOfLightHypothesisTest::degrees_of_freedom(5), 4);
    assert_eq!(SpeedOfLightHypothesisTest::degrees_of_freedom(usize::MAX), usize::MAX - 1);
}

#[test]
fn estimate_applies_with_freedom_and_a_positive_statistic() {
    assert!(SpeedOfLightHypothesisTest::is_estimated(2, number(0.5)));
    assert!(SpeedOfLightHypothesisTest::is_estimated(2, number(f64::INFINITY)));
    assert!(!SpeedOfLightHypothesisTest::is_estimated(1, number(0.5)));
    assert!(!SpeedOfLightHypothesisTest::is_estimated(0, number(0.5)));
    assert!(!SpeedOfLightHypothesisTest::is_estimated(2, number(0.0)));
    assert!(!SpeedOfLightHypothesisTest::is_estimated(2, number(-0.0)));
    assert!(!SpeedOfLightHypothesisTest::is_estimated(2, number(-1.0)));
    assert!(!SpeedOfLightHypothesisTest::is_estimated(2, number(f64::NAN)));
}

#[test]
fn p_value_is_the_estimate_or_one() {
    let chi_squared: f64 = 2.0;
    let estimate = 1.0 - (-chi_squared / 2.0).exp();
    assert_eq!(estimate, 0.6321205588285577);
    let p = SpeedOfLightHypothesisTest::p_value(3, number(chi_squared), number(estimate));
    assert_eq!(value(p), 0.6321205588285577);
    let c = SpeedOfLightHypothesisTest::confidence_level(3, number(chi_squared), number(1.0 - estimate));
    assert_eq!(value(c), 1.0 - 0.6321205588285577);

    let p = SpeedOfLightHypothesisTest::p_value(1, number(chi_squared), number(estimate));
    assert_eq!(value(p), 1.0);
    let c = SpeedOfLightHypothesisTest::confidence_level(1, number(chi_squared), number(1.0 - estimate));
    assert_eq!(value(c), 0.0);

    let p = SpeedOfLightHypothesisTest::p_value(3, number(0.0), number(0.0));
    assert_eq!(value(p), 1.0);
    let c = SpeedOfLightHypothesisTest::confidence_level(3, number(0.0), number(1.0));
    assert_eq!(value(c), 0.0);
}

#[test]
fn verdict_needs_more_than_one_twentieth() {
    assert!(SpeedOfLightHypothesisTest::is_consistent(number(1.0)));
    assert!(SpeedOfLightHypothesisTest::is_consistent(number(0.6321205588285577)));
    assert!(SpeedOfLightHypothesisTest::is_consistent(number(0.05000000000000001)));
    assert!(!SpeedOfLightHypothesisTest::is_consistent(number(0.05)));
    assert!(!SpeedOfLightHypothesisTest::is_consistent(number(0.049999999999999996)));
    assert!(!SpeedOfLightHypothesisTest::is_consistent(number(0.0)));
    assert!(!SpeedOfLightHypothesisTest::is_consistent(number(f64::NAN)));
}
