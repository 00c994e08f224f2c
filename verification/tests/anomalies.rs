use battery_dashboard::anomalies::kind_order;
use battery_dashboard::anomalies::AnomalyKind;
use battery_dashboard::anomalies::InsufficiencyReason;
use battery_dashboard::health::TrendInsufficiency;
use battery_dashboard::anomalies::interrupted_charge_confidence;
use battery_dashboard::anomalies::interrupted_charge_run;
use battery_dashboard::anomalies::report_insufficiency;
use battery_dashboard::storage::SampleState;

#[test]
fn insufficiency_reasons_have_stable_spellings() {
    assert_eq!(InsufficiencyReason::TooFewSamples.as_str(), "too-few-samples");
    assert_eq!(InsufficiencyReason::NoUsableMetrics.as_str(), "no-usable-metrics");
    assert_eq!(
        InsufficiencyReason::TooFewBaselineValues.as_str(),
        "too-few-baseline-values"
    );
}

#[test]
fn anomaly_kinds_are_ranked_for_stable_ordering() {
    assert_eq!(kind_order(AnomalyKind::UnusualPower), 0);
    assert_eq!(kind_order(AnomalyKind::RapidDischarge), 1);
    assert_eq!(kind_order(AnomalyKind::InterruptedCharge), 2);
    assert_eq!(AnomalyKind::RapidDischarge.as_str(), "rapid-discharge");
    assert_ne!(
        TrendInsufficiency::TooFewDailyObservations,
        TrendInsufficiency::TooShortTimeSpan
    );
}

#[test]
fn report_verdict_follows_the_observation_counts() {
    assert_eq!(report_insufficiency(1, 9, 9, 9), Some(InsufficiencyReason::TooFewSamples));
    assert_eq!(report_insufficiency(2, 0, 0, 0), Some(InsufficiencyReason::NoUsableMetrics));
    assert_eq!(report_insufficiency(10, 4, 0, 0), Some(InsufficiencyReason::TooFewBaselineValues));
    assert_eq!(report_insufficiency(10, 0, 4, 0), Some(InsufficiencyReason::TooFewBaselineValues));
    assert_eq!(report_insufficiency(10, 5, 0, 0), None);
    assert_eq!(report_insufficiency(10, 0, 5, 0), None);
    assert_eq!(report_insufficiency(10, 0, 0, 1), None);
}

#[test]
fn an_interrupted_charge_needs_three_charging_samples_and_a_stop_short_of_full() {
    let states = [SampleState::Discharging, SampleState::Charging, SampleState::Charging, SampleState::Charging, SampleState::Discharging];
    assert_eq!(interrupted_charge_run(&states, 3), Some(3));
    assert_eq!(interrupted_charge_run(&states, 2), None);
    assert_eq!(interrupted_charge_run(&states, 4), None);
    assert_eq!(interrupted_charge_run(&[SampleState::Charging, SampleState::Charging, SampleState::Discharging], 1), None);
    assert_eq!(interrupted_charge_run(&[SampleState::Charging, SampleState::Charging, SampleState::Charging, SampleState::Full], 2), None);
    assert_eq!(interrupted_charge_run(&[SampleState::Charging, SampleState::Charging, SampleState::Charging, SampleState::Idle], 2), Some(3));
    assert_eq!(interrupted_charge_run(&[SampleState::Charging, SampleState::Charging, SampleState::Charging], 2), None);
}

#[test]
fn long_interrupted_charges_are_reported_with_high_confidence() {
    assert_eq!(interrupted_charge_confidence(3), "medium");
    assert_eq!(interrupted_charge_confidence(5), "medium");
    assert_eq!(interrupted_charge_confidence(6), "high");
}
