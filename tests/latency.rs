use bim::engine::{probe_event, RunAction, RunEvent, RunState};
use bim::latency::{Average, LatencySamples, MAX_SAMPLES, TIMEOUT_SENTINEL};

fn samples(values: &[Option<u64>]) -> LatencySamples {
    let mut s = LatencySamples::new();
    for v in values {
        assert!(s.record(*v));
    }
    s
}

#[test]
fn trimmed_jitter_leaves_out_outlier_and_minimum() {
    let s = samples(&[Some(50), Some(52), Some(1000), Some(51)]);
    assert_eq!(s.min_of_n(), Some(50));
    let j = s.trimmed_deviation().unwrap();
    assert_eq!(j, Average { total: 3, count: 2 });
    assert_eq!(j.thousandths(), 1500);
    assert_eq!(j.floor(), 1);
}

#[test]
fn min_of_n_picks_the_least_sample() {
    let s = samples(&[Some(80), Some(45), Some(60)]);
    assert_eq!(s.min_of_n(), Some(45));
}

#[test]
fn mean_deviation_over_all_successful_samples() {
    let s = samples(&[Some(80), Some(45), None, Some(60)]);
    assert_eq!(s.mean_deviation(), Some(Average { total: 35 + 15, count: 3 }));
}

#[test]
fn trimmed_mean_drops_extremes() {
    let s = samples(&[Some(10), Some(40), Some(20), Some(30)]);
    assert_eq!(s.trimmed_mean(), Some(Average { total: 50, count: 2 }));
    let two = samples(&[Some(10), Some(40)]);
    assert_eq!(two.trimmed_mean(), Some(Average { total: 50, count: 2 }));
    assert_eq!(two.trimmed_deviation(), Some(Average { total: 30, count: 2 }));
}

#[test]
fn all_sentinel_probe_fails_and_aborts() {
    let s = samples(&[None, None, None, None, None]);
    assert_eq!(s.len(), 5);
    assert_eq!(s.min_of_n(), None);
    assert_eq!(s.mean_deviation(), None);
    assert_eq!(s.trimmed_deviation(), None);
    assert_eq!(s.trimmed_mean(), None);
    let e = probe_event(&s);
    assert_eq!(e, RunEvent::ProbeFinished { reachable: false });
    assert_eq!(RunState::Probing.step(e), (RunState::Aborted, RunAction::Report));
    let (next, action) = RunState::Aborted.step(RunEvent::PhaseFinished { saw_traffic: true });
    assert_eq!(next, RunState::Aborted);
    assert_eq!(action, RunAction::Ignore);
}

#[test]
fn one_refused_connection_is_not_fatal() {
    let s = samples(&[None, Some(700), None]);
    assert_eq!(s.min_of_n(), Some(700));
    assert_eq!(probe_event(&s), RunEvent::ProbeFinished { reachable: true });
}

#[test]
fn sample_at_or_above_the_sentinel_counts_as_timeout() {
    let s = samples(&[Some(TIMEOUT_SENTINEL), Some(TIMEOUT_SENTINEL + 1)]);
    assert_eq!(s.min_of_n(), None);
    let t = samples(&[Some(TIMEOUT_SENTINEL - 1)]);
    assert_eq!(t.min_of_n(), Some(TIMEOUT_SENTINEL - 1));
}

#[test]
fn probe_holds_at_most_twenty_samples() {
    let mut s = LatencySamples::new();
    for i in 0..MAX_SAMPLES {
        assert!(s.record(Some(100 + i as u64)));
    }
    assert!(!s.record(Some(1)));
    assert_eq!(s.len(), 20);
    assert_eq!(s.min_of_n(), Some(100));
}

#[test]
fn empty_probe_has_no_estimate() {
    let s = LatencySamples::new();
    assert_eq!(s.min_of_n(), None);
    assert_eq!(s.mean_deviation(), None);
}
