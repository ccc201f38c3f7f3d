use bim::coordinator::{StopSignal, WorkerAction, WorkerPool};
use bim::sampler::{aggregate, per_second, RateSampler, SampleWindow};

#[test]
fn window_refuses_a_decreasing_reading() {
    let mut w = SampleWindow::new();
    assert!(w.push(10));
    assert!(w.push(10));
    assert!(w.push(25));
    assert!(!w.push(24));
    assert_eq!(w.len(), 3);
    assert_eq!(w.get(2), 25);
}

#[test]
fn window_readings_stay_ordered() {
    let mut w = SampleWindow::new();
    for r in [0u64, 5, 3, 9, 9, 1, 20] {
        w.push(r);
    }
    for i in 1..w.len() {
        assert!(w.get(i - 1) <= w.get(i));
    }
    assert_eq!(w.len(), 5);
}

#[test]
fn ramp_up_boundary_uses_the_tick_delta() {
    for k in 0..6usize {
        let mut s = RateSampler::new(k);
        let readings = [7u64, 20, 40, 70, 100, 150, 160];
        for r in readings {
            assert!(s.record(r));
        }
        let expected = if k == 0 { readings[0] } else { readings[k] - readings[k - 1] };
        assert_eq!(s.rate_at(k), expected);
    }
}

#[test]
fn rate_during_and_after_ramp_up() {
    let mut s = RateSampler::new(2);
    for r in [100u64, 300, 600, 700, 1000] {
        s.record(r);
    }
    assert_eq!(s.rate_at(0), 100);
    assert_eq!(s.rate_at(1), 200);
    assert_eq!(s.rate_at(2), 300);
    assert_eq!(s.rate_at(3), 100);
    assert_eq!(s.rate_at(4), 200);
    assert_eq!(s.current_rate(), Some(200));
}

#[test]
fn empty_sampler_has_no_rate_and_no_traffic() {
    let s = RateSampler::new(3);
    assert_eq!(s.current_rate(), None);
    assert!(!s.saw_traffic());
    let mut z = RateSampler::new(3);
    z.record(0);
    z.record(0);
    assert!(!z.saw_traffic());
    assert_eq!(z.current_rate(), Some(0));
}

#[test]
fn steady_ten_mebibytes_per_second_over_fifteen_ticks() {
    let per_tick: u64 = 10 * 1024 * 1024;
    let mut s = RateSampler::new(3);
    for t in 0..15u64 {
        assert!(s.record((t + 1) * per_tick));
    }
    assert_eq!(s.ticks(), 15);
    assert_eq!(s.current_rate(), Some(per_tick));
    for t in 0..15usize {
        assert_eq!(s.rate_at(t), per_tick);
    }
    assert_eq!(per_second(per_tick, 1000), per_tick);
    assert!(s.saw_traffic());
}

#[test]
fn per_second_scales_by_the_tick_length() {
    assert_eq!(per_second(500, 500), 1000);
    assert_eq!(per_second(7, 1000), 7);
    assert_eq!(per_second(10, 3000), 3);
    assert_eq!(per_second(u64::MAX, 1), u64::MAX);
}

#[test]
fn aggregate_sums_or_reports_overflow() {
    assert_eq!(aggregate(&vec![]), Some(0));
    assert_eq!(aggregate(&vec![1, 2, 3]), Some(6));
    assert_eq!(aggregate(&vec![u64::MAX, 0]), Some(u64::MAX));
    assert_eq!(aggregate(&vec![u64::MAX, 1]), None);
}

#[test]
fn no_worker_counts_before_everyone_arrives() {
    let mut pool = WorkerPool::new(4);
    for i in 0..4 {
        assert_eq!(pool.record(i, 1000), WorkerAction::Continue);
        assert!(!pool.arrive(i));
        assert_eq!(pool.record(i, 1000), WorkerAction::Continue);
    }
    assert_eq!(pool.total(), 0);
    assert!(!pool.is_released());
    assert!(pool.coordinator_arrive());
    assert!(pool.is_released());
    for i in 0..4 {
        assert_eq!(pool.record(i, 16384), WorkerAction::Continue);
    }
    assert_eq!(pool.total(), 4 * 16384);
    assert_eq!(pool.count_of(2), 16384);
}

#[test]
fn coordinator_first_still_waits_for_workers() {
    let mut pool = WorkerPool::new(2);
    assert!(!pool.coordinator_arrive());
    assert!(!pool.arrive(0));
    assert!(!pool.arrive(0));
    assert_eq!(pool.record(0, 10), WorkerAction::Continue);
    assert_eq!(pool.total(), 0);
    assert!(pool.arrive(1));
    assert_eq!(pool.record(0, 10), WorkerAction::Continue);
    assert_eq!(pool.total(), 10);
}

#[test]
fn counters_freeze_once_stop_is_broadcast() {
    let mut pool = WorkerPool::new(3);
    for i in 0..3 {
        pool.arrive(i);
    }
    pool.coordinator_arrive();
    for i in 0..3 {
        pool.record(i, 100);
    }
    assert_eq!(pool.signal(), StopSignal::Running);
    pool.stop();
    assert!(pool.is_stopped());
    assert_eq!(pool.signal(), StopSignal::Stop);
    for i in 0..3 {
        assert_eq!(pool.record(i, 100), WorkerAction::Exit);
    }
    assert_eq!(pool.total(), 300);
    pool.stop();
    assert!(pool.is_stopped());
}

#[test]
fn failed_worker_keeps_its_count_and_others_go_on() {
    let mut pool = WorkerPool::new(2);
    pool.arrive(0);
    pool.arrive(1);
    pool.coordinator_arrive();
    pool.record(0, 50);
    pool.fail(0);
    assert_eq!(pool.record(0, 50), WorkerAction::Exit);
    assert_eq!(pool.record(1, 70), WorkerAction::Continue);
    assert_eq!(pool.count_of(0), 50);
    assert_eq!(pool.total(), 120);
}

#[test]
fn pool_total_saturates() {
    let mut pool = WorkerPool::new(2);
    pool.arrive(0);
    pool.arrive(1);
    pool.coordinator_arrive();
    pool.record(0, u64::MAX - 5);
    pool.record(1, 100);
    assert_eq!(pool.total(), u64::MAX);
    assert_eq!(pool.count_of(1), 5);
}
