use fuse::inference::coordinator::{Arrival, BatchConfig, BatchGatherer, BatchStep, StatsCounters};

#[test]
fn gatherer_asks_until_full() {
    let config = BatchConfig { max_batch_size: 3, max_wait_ms: 50, max_concurrent: 4 };
    let mut g = BatchGatherer::start(1u32, &config);
    assert_eq!(g.first_step(), BatchStep::TryReceive);
    assert_eq!(g.step(Arrival::Ready(2)), BatchStep::TryReceive);
    assert_eq!(g.step(Arrival::Empty), BatchStep::WaitFor(50));
    assert_eq!(g.step(Arrival::Arrived(3)), BatchStep::Process);
    assert_eq!(g.len(), 3);
    assert_eq!(g.into_batch(), vec![1, 2, 3]);
}

#[test]
fn gatherer_stops_on_timeout_and_disconnect() {
    let config = BatchConfig::default();
    let mut g = BatchGatherer::start("a", &config);
    assert_eq!(g.step(Arrival::Empty), BatchStep::WaitFor(50));
    assert_eq!(g.step(Arrival::TimedOut), BatchStep::Process);
    assert_eq!(g.into_batch(), vec!["a"]);

    let mut g = BatchGatherer::start("b", &config);
    assert_eq!(g.step(Arrival::Disconnected), BatchStep::Process);
    assert_eq!(g.len(), 1);
}

#[test]
fn gatherer_with_size_one_processes_at_once() {
    let config = BatchConfig { max_batch_size: 1, max_wait_ms: 10, max_concurrent: 1 };
    let g = BatchGatherer::start(7u8, &config);
    assert_eq!(g.first_step(), BatchStep::Process);
}

#[test]
fn counters_track_requests_and_batches() {
    let mut c = StatsCounters::new();
    let s = c.stats();
    assert_eq!((s.total_requests, s.active_requests, s.total_batches, s.total_batch_items), (0, 0, 0, 0));
    c.request_started();
    c.request_started();
    c.batch_formed(2);
    c.request_finished();
    let s = c.stats();
    assert_eq!(s.total_requests, 2);
    assert_eq!(s.total_batch_items, 2);
    assert_eq!(s.total_batches, 1);
    assert_eq!(s.active_requests, 1);
}

#[test]
fn counters_wrap_like_atomics() {
    let mut c = StatsCounters::new();
    c.request_finished();
    assert_eq!(c.stats().active_requests, u64::MAX);
    c.request_started();
    assert_eq!(c.stats().active_requests, 0);
}
