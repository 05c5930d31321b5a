use donglora_bridge::activity::{
    pad_right_align, snr_stats_since, Bucket, TimeSeries, BUCKET_SECS, MAX_BUCKETS,
};
use donglora_bridge::router::{PacketAction, PacketDirection, PacketLogEntry, StatsSnapshot};

const SEC: u64 = 1_000_000_000;

/// A time well after the clock's start.
const NOW: u64 = 1_000 * SEC;

fn make_snapshot(radio_rx: u64, radio_tx: u64) -> StatsSnapshot {
    StatsSnapshot {
        radio_rx,
        radio_tx,
        gossip_rx: 0,
        gossip_tx: 0,
        dedup_hits: 0,
        rate_limit_drops: 0,
        dropped_queue: 0,
        neighbor_count: 0,
        radio_connected: true,
        tx_retries: 0,
        tx_failures: 0,
    }
}

fn make_log_entry(timestamp: u64, snr: Option<i16>) -> PacketLogEntry {
    PacketLogEntry {
        timestamp,
        hash: [0u8; 32],
        direction: PacketDirection::RadioIn,
        size: 10,
        snr,
        rssi: Some(-80),
        action: PacketAction::Bridged,
        tx_retry: None,
    }
}

fn series() -> TimeSeries {
    TimeSeries::new(&make_snapshot(0, 0), NOW)
}

fn bucket(radio_rx: u64, radio_tx: u64, snr_sum: i64, snr_count: u64) -> Bucket {
    Bucket { radio_rx, radio_tx, snr_sum, snr_count }
}

#[test]
fn snr_stats_since_empty() {
    assert_eq!(snr_stats_since(&[], NOW), (0, 0));
}

#[test]
fn snr_stats_since_sums_and_counts_correctly() {
    let entries = vec![
        make_log_entry(NOW + SEC, Some(10)),
        make_log_entry(NOW + 2 * SEC, Some(20)),
        make_log_entry(NOW + 3 * SEC, Some(-5)),
    ];
    let (sum, count) = snr_stats_since(&entries, NOW);
    assert_eq!(sum, 25); // 10 + 20 + (-5)
    assert_eq!(count, 3);
}

#[test]
fn snr_stats_since_respects_cutoff() {
    let entries = vec![
        make_log_entry(NOW + SEC, Some(10)),
        make_log_entry(NOW + 2 * SEC, Some(20)),
        make_log_entry(NOW + 5 * SEC, Some(30)),
    ];
    let cutoff = NOW + 3 * SEC;
    let (sum, count) = snr_stats_since(&entries, cutoff);
    assert_eq!(sum, 30);
    assert_eq!(count, 1);
}

#[test]
fn snr_stats_since_skips_none_snr() {
    let entries = vec![
        make_log_entry(NOW + SEC, Some(10)),
        make_log_entry(NOW + 2 * SEC, None),
        make_log_entry(NOW + 3 * SEC, Some(20)),
    ];
    let (sum, count) = snr_stats_since(&entries, NOW);
    assert_eq!(sum, 30); // 10 + 20, skipping None
    assert_eq!(count, 2);
}

#[test]
fn snr_stats_since_all_before_cutoff() {
    let entries = vec![make_log_entry(NOW, Some(10)), make_log_entry(NOW, Some(20))];
    // Entries at exactly the cutoff are excluded.
    let (sum, count) = snr_stats_since(&entries, NOW);
    assert_eq!(sum, 0);
    assert_eq!(count, 0);
}

#[test]
fn snr_stats_since_all_none_snr() {
    let entries =
        vec![make_log_entry(NOW + SEC, None), make_log_entry(NOW + 2 * SEC, None)];
    let (sum, count) = snr_stats_since(&entries, NOW);
    assert_eq!(sum, 0);
    assert_eq!(count, 0);
}

#[test]
fn snr_stats_since_stops_at_the_first_old_entry() {
    let entries = vec![
        make_log_entry(NOW + SEC, Some(10)),
        make_log_entry(NOW, Some(20)),
        make_log_entry(NOW + 2 * SEC, Some(30)),
    ];
    assert_eq!(snr_stats_since(&entries, NOW), (30, 1));
}

#[test]
fn time_series_new_has_max_buckets() {
    let ts = series();
    assert_eq!(ts.buckets.len(), MAX_BUCKETS);
}

#[test]
fn time_series_radio_rx_returns_bucket_data() {
    let mut ts = series();
    ts.buckets.push_back(bucket(42, 0, 0, 0));
    let rx = ts.radio_rx();
    assert_eq!(*rx.last().unwrap(), 42);
}

#[test]
fn time_series_radio_tx_returns_bucket_data() {
    let mut ts = series();
    ts.buckets.push_back(bucket(0, 99, 0, 0));
    let tx = ts.radio_tx();
    assert_eq!(*tx.last().unwrap(), 99);
}

#[test]
fn time_series_avg_snr_with_data() {
    let mut ts = series();
    // snr_sum=10, snr_count=2 -> avg=5 -> shifted = 5+30 = 35
    ts.buckets.push_back(bucket(0, 0, 10, 2));
    let snr = ts.avg_snr();
    assert_eq!(*snr.last().unwrap(), 35);
}

#[test]
fn time_series_avg_snr_zero_count() {
    let ts = series();
    let snr = ts.avg_snr();
    assert!(snr.iter().all(|&v| v == 0));
}

#[test]
fn time_series_avg_snr_negative_clamps_to_zero() {
    let mut ts = series();
    // avg = -50, shifted = -50+30 = -20, clamped to 0
    ts.buckets.push_back(bucket(0, 0, -50, 1));
    let snr = ts.avg_snr();
    assert_eq!(*snr.last().unwrap(), 0);
}

#[test]
fn time_series_avg_snr_rounds_towards_zero() {
    let mut ts = series();
    ts.buckets.push_back(bucket(0, 0, -7, 2));
    assert_eq!(*ts.avg_snr().last().unwrap(), 27);
    assert_eq!(ts.latest_avg_snr(), Some(-3));
    ts.buckets.push_back(bucket(0, 0, 7, 2));
    assert_eq!(ts.latest_avg_snr(), Some(3));
}

#[test]
fn time_series_averages_like_machine_division() {
    for (sum, count) in [
        (i64::MIN, 1u64),
        (i64::MAX, 2),
        (i64::MIN, 3),
        (5, u64::MAX),
        (-5, u64::MAX - 1),
        (i64::MAX, 1 << 63),
    ] {
        let mut ts = series();
        ts.buckets.push_back(bucket(0, 0, sum, count));
        assert_eq!(ts.latest_avg_snr(), Some(sum / (count as i64)));
    }
}

#[test]
fn time_series_peak_rx() {
    let mut ts = series();
    ts.buckets.push_back(bucket(5, 0, 0, 0));
    ts.buckets.push_back(bucket(15, 0, 0, 0));
    ts.buckets.push_back(bucket(3, 0, 0, 0));
    assert_eq!(ts.peak_rx(), 15);
}

#[test]
fn time_series_peak_tx() {
    let mut ts = series();
    ts.buckets.push_back(bucket(0, 7, 0, 0));
    ts.buckets.push_back(bucket(0, 22, 0, 0));
    assert_eq!(ts.peak_tx(), 22);
}

#[test]
fn time_series_peak_rx_default_is_zero() {
    assert_eq!(series().peak_rx(), 0);
}

#[test]
fn time_series_peak_tx_default_is_zero() {
    assert_eq!(series().peak_tx(), 0);
}

#[test]
fn time_series_latest_avg_snr_with_data() {
    let mut ts = series();
    ts.buckets.push_back(bucket(0, 0, 100, 10));
    // sum=20, count=4 -> avg=5
    ts.buckets.push_back(bucket(0, 0, 20, 4));
    assert_eq!(ts.latest_avg_snr(), Some(5));
}

#[test]
fn time_series_latest_avg_snr_none_when_no_data() {
    assert_eq!(series().latest_avg_snr(), None);
}

#[test]
fn time_series_latest_avg_snr_skips_trailing_empty() {
    let mut ts = series();
    ts.buckets.push_back(bucket(0, 0, -12, 3));
    ts.buckets.push_back(Bucket::default()); // snr_count = 0
    assert_eq!(ts.latest_avg_snr(), Some(-4));
}

#[test]
fn time_series_update_creates_bucket() {
    let mut ts = TimeSeries::new(&make_snapshot(10, 5), NOW);
    // Force the last_bucket_time to be old enough to trigger a new bucket.
    ts.last_bucket_time = NOW - (BUCKET_SECS + 1) * SEC;
    let initial_len = ts.buckets.len();

    let entries = vec![make_log_entry(NOW, Some(10))];
    ts.update(&make_snapshot(15, 8), &entries, NOW);

    assert!(ts.buckets.len() >= initial_len);
    let last = ts.buckets.back().unwrap();
    assert_eq!(last.radio_rx, 5); // 15 - 10
    assert_eq!(last.radio_tx, 3); // 8 - 5
    assert_eq!((last.snr_sum, last.snr_count), (10, 1));
    assert_eq!(ts.last_bucket_time, NOW);
}

#[test]
fn time_series_update_does_not_create_bucket_when_interval_not_elapsed() {
    let mut ts = TimeSeries::new(&make_snapshot(10, 5), NOW);
    let len_before = ts.buckets.len();
    ts.update(&make_snapshot(20, 10), &[], NOW);
    assert_eq!(ts.buckets.len(), len_before);
    assert_eq!(ts.last_snap.radio_rx, 10);
}

#[test]
fn time_series_update_at_exactly_one_second() {
    let mut ts = series();
    ts.update(&make_snapshot(1, 0), &[], NOW + SEC - 1);
    assert_eq!(ts.peak_rx(), 0);
    ts.update(&make_snapshot(1, 0), &[], NOW + SEC);
    assert_eq!(ts.peak_rx(), 1);
}

#[test]
fn time_series_update_rotates_when_exceeding_max() {
    let mut ts = series();
    assert_eq!(ts.buckets.len(), MAX_BUCKETS);
    ts.last_bucket_time = NOW - (BUCKET_SECS + 1) * SEC;
    ts.update(&make_snapshot(1, 1), &[], NOW);
    assert_eq!(ts.buckets.len(), MAX_BUCKETS);
    let last = ts.buckets.back().unwrap();
    assert_eq!(last.radio_rx, 1);
}

#[test]
fn time_series_update_no_pop_at_exactly_max() {
    let mut ts = series();
    ts.buckets.pop_front(); // now MAX_BUCKETS - 1
    assert_eq!(ts.buckets.len(), MAX_BUCKETS - 1);
    ts.last_bucket_time = NOW - (BUCKET_SECS + 1) * SEC;
    ts.update(&make_snapshot(1, 0), &[], NOW);
    assert_eq!(ts.buckets.len(), MAX_BUCKETS, "should be exactly MAX_BUCKETS, not popped");
}

#[test]
fn time_series_counters_that_went_back() {
    let mut ts = TimeSeries::new(&make_snapshot(10, 10), NOW);
    ts.update(&make_snapshot(3, 12), &[], NOW + SEC);
    let last = ts.buckets.back().unwrap();
    assert_eq!((last.radio_rx, last.radio_tx), (0, 2));
}

#[test]
fn pad_right_align_shorter_than_width() {
    assert_eq!(pad_right_align(&[1, 2, 3], 5), vec![0, 0, 1, 2, 3]);
}

#[test]
fn pad_right_align_longer_than_width() {
    assert_eq!(pad_right_align(&[1, 2, 3, 4, 5], 3), vec![3, 4, 5]);
}

#[test]
fn pad_right_align_exact() {
    assert_eq!(pad_right_align(&[1, 2, 3], 3), vec![1, 2, 3]);
}

#[test]
fn pad_right_align_empty() {
    assert_eq!(pad_right_align(&[], 3), vec![0, 0, 0]);
}

#[test]
fn pad_right_align_output_length() {
    for len in 0..500usize {
        let data: Vec<u64> = (0..len as u64).map(|i| i * 37 % 100).collect();
        for width in 0..200usize {
            assert_eq!(pad_right_align(&data, width).len(), width);
        }
    }
}
