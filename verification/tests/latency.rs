use chunked_wal::wal::batch_metrics::BatchMetrics;
use chunked_wal::wal::flush_recorder::FlushRecorder;
use chunked_wal::wal::latency::LatencySamples;
use chunked_wal::FlushLatencyPercentiles;
use chunked_wal::FlushMetrics;

fn percentiles(p50_us: u64, p90_us: u64, p99_us: u64) -> FlushLatencyPercentiles {
    FlushLatencyPercentiles {
        p50_us,
        p90_us,
        p99_us,
    }
}

#[test]
fn test_no_samples_have_no_latency() {
    let samples = LatencySamples::new();
    assert_eq!(0, samples.percentile(50));
    assert_eq!(FlushLatencyPercentiles::default(), samples.percentiles());
}

#[test]
fn test_percentiles_of_a_hundred_samples() {
    let mut samples = LatencySamples::new();
    // Any order will do.
    for i in 0..100u64 {
        samples.record((i * 37) % 100 + 1);
    }
    assert_eq!(1, samples.percentile(1));
    assert_eq!(percentiles(50, 90, 99), samples.percentiles());
    assert_eq!(100, samples.percentile(100));
}

#[test]
fn test_repeated_latencies_are_counted() {
    let mut samples = LatencySamples::new();
    for us in [7, 7, 3, 7, 1_000, 7, 7, 7, 7, 7] {
        samples.record(us);
    }
    assert_eq!(10, samples.total);
    assert_eq!(3, samples.counts.len());
    assert_eq!(percentiles(7, 7, 1_000), samples.percentiles());
    assert_eq!(3, samples.percentile(10));
    assert_eq!(7, samples.percentile(11));
    assert_eq!(1_000, samples.percentile(91));
}

#[test]
fn test_one_sample_is_every_percentile() {
    let mut samples = LatencySamples::new();
    samples.record(42);
    assert_eq!(percentiles(42, 42, 42), samples.percentiles());
}

fn batch(group_wait_us: u64, sync_us: Option<u64>, n: u64) -> BatchMetrics {
    BatchMetrics {
        size: 1,
        bytes: 10,
        callbacks: 0,
        group_wait_us,
        queued_wait_us: 3 * n,
        queued_wait_max_us: 2 * n,
        write_us: n,
        sync_us,
        batch_us: 10 * n,
    }
}

#[test]
fn test_recorder_gathers_percentiles() {
    let mut recorder = FlushRecorder::new();
    assert_eq!(FlushMetrics::default(), recorder.snapshot());

    recorder.record_batch(batch(0, None, 1));
    recorder.record_batch(batch(5, Some(100), 2));
    recorder.record_batch(batch(0, Some(300), 3));
    recorder.record_batch(batch(9, Some(200), 4));

    let metrics = recorder.snapshot();
    assert_eq!(4, metrics.batch_count);
    assert_eq!(3, metrics.sync_batch_count);
    assert_eq!(2, metrics.group_wait_count);
    assert_eq!(percentiles(5, 9, 9), metrics.group_wait_percentiles);
    assert_eq!(percentiles(4, 8, 8), metrics.queued_wait_percentiles);
    assert_eq!(percentiles(2, 4, 4), metrics.write_percentiles);
    assert_eq!(percentiles(200, 300, 300), metrics.sync_percentiles);
    assert_eq!(percentiles(20, 40, 40), metrics.batch_percentiles);

    let mut totals = FlushMetrics::default();
    totals.record_batch(batch(0, None, 1));
    totals.record_batch(batch(5, Some(100), 2));
    totals.record_batch(batch(0, Some(300), 3));
    totals.record_batch(batch(9, Some(200), 4));
    assert_eq!(
        totals,
        FlushMetrics {
            group_wait_percentiles: FlushLatencyPercentiles::default(),
            queued_wait_percentiles: FlushLatencyPercentiles::default(),
            write_percentiles: FlushLatencyPercentiles::default(),
            sync_percentiles: FlushLatencyPercentiles::default(),
            batch_percentiles: FlushLatencyPercentiles::default(),
            ..metrics
        }
    );
}
