//! Real-time activity of the radio, in buckets of one second.

use std::collections::VecDeque;

use vstd::prelude::*;

use crate::router::{PacketLogEntry, StatsSnapshot};

verus! {

/// Length of a bucket, in seconds.
pub const BUCKET_SECS: u64 = 1;

/// Number of buckets kept.
pub const MAX_BUCKETS: usize = 300;

/// Nanoseconds in a second.
pub const NANOS_PER_SEC: u64 = 1_000_000_000;

/// Log entries that can be summed up without overflow.
pub const MAX_SUMMED_ENTRIES: u64 = 0x1_0000_0000_0000;

/// What happened within one bucket's time.
#[derive(Debug, Clone, Copy, PartialEq, Eq, Structural)]
pub struct Bucket {
    pub radio_rx: u64,
    pub radio_tx: u64,
    pub snr_sum: i64,
    pub snr_count: u64,
}

impl Default for Bucket {
    fn default() -> (b: Bucket)
        ensures
            b == Bucket::idle(),
    {
        Bucket { radio_rx: 0, radio_tx: 0, snr_sum: 0, snr_count: 0 }
    }
}

/// The signed number with the same 64-bit pattern.
pub open spec fn signed64(n: u64) -> int {
    if n <= i64::MAX {
        n as int
    } else {
        n - 0x1_0000_0000_0000_0000
    }
}

/// `a / b`, rounded towards zero.
pub open spec fn truncated_quotient(a: int, b: int) -> int {
    let size = (if a < 0 {
        -a
    } else {
        a
    }) / (if b < 0 {
        -b
    } else {
        b
    });
    if (a < 0) == (b < 0) {
        size
    } else {
        -size
    }
}

impl Bucket {
    /// A bucket in which nothing happened.
    pub open spec fn idle() -> Bucket {
        Bucket { radio_rx: 0, radio_tx: 0, snr_sum: 0, snr_count: 0 }
    }

    /// The average SNR of a bucket that has one.
    pub open spec fn mean_snr(self) -> int {
        truncated_quotient(self.snr_sum as int, signed64(self.snr_count))
    }

    /// The average SNR, if there is one, can be counted.
    pub open spec fn mean_fits(self) -> bool {
        self.snr_count > 0 ==> self.mean_snr() <= i64::MAX
    }

    /// The average SNR, if there is one, can be shifted up by 30 dB.
    pub open spec fn level_fits(self) -> bool {
        self.snr_count > 0 ==> self.mean_snr() + 30 <= i64::MAX
    }

    /// The average SNR as a height: shifted up by 30 dB, never negative, and
    /// zero where there is none.
    pub open spec fn snr_level(self) -> u64 {
        if self.snr_count > 0 && self.mean_snr() + 30 > 0 {
            (self.mean_snr() + 30) as u64
        } else {
            0
        }
    }
}

fn magnitude(n: i64) -> (m: u64)
    ensures
        m == if n < 0 {
            -(n as int)
        } else {
            n as int
        },
{
    if n < 0 {
        ((-(n + 1)) as u64) + 1
    } else {
        n as u64
    }
}

fn as_signed(n: u64) -> (s: i64)
    ensures
        s == signed64(n),
{
    if n <= 0x7FFF_FFFF_FFFF_FFFF {
        n as i64
    } else {
        -((u64::MAX - n) as i64) - 1
    }
}

fn divide(a: i64, b: i64) -> (q: i64)
    requires
        b != 0,
        truncated_quotient(a as int, b as int) <= i64::MAX,
    ensures
        q == truncated_quotient(a as int, b as int),
{
    let size: u64 = magnitude(a) / magnitude(b);
    assert(size <= magnitude_of(a)) by (nonlinear_arith)
        requires
            size == magnitude_of(a) / magnitude_of(b),
            magnitude_of(b) >= 1,
            magnitude_of(a) >= 0,
    ;
    if (a < 0) == (b < 0) {
        size as i64
    } else if size == 0x8000_0000_0000_0000 {
        i64::MIN
    } else {
        -(size as i64)
    }
}

spec fn magnitude_of(n: i64) -> int {
    if n < 0 {
        -(n as int)
    } else {
        n as int
    }
}

impl Bucket {
    /// The average SNR, rounded towards zero, of a bucket that has one.
    fn average(&self) -> (q: i64)
        requires
            self.snr_count > 0,
            self.mean_fits(),
        ensures
            q == self.mean_snr(),
    {
        divide(self.snr_sum, as_signed(self.snr_count))
    }

    fn level(&self) -> (v: u64)
        requires
            self.level_fits(),
        ensures
            v == self.snr_level(),
    {
        if self.snr_count > 0 {
            let avg: i64 = self.average();
            if avg + 30 > 0 {
                (avg + 30) as u64
            } else {
                0
            }
        } else {
            0
        }
    }
}

// ── SNR sums ────────────────────────────────────────────────────────

/// The sum and number of the SNR readings of the entries at the end of the
/// log that are later than `since`, up to the first that is not.
pub open spec fn snr_since(entries: Seq<PacketLogEntry>, since: u64) -> (int, int)
    decreases entries.len(),
{
    if entries.len() == 0 || entries.last().timestamp <= since {
        (0, 0)
    } else {
        let (sum, count) = snr_since(entries.drop_last(), since);
        match entries.last().snr {
            Some(s) => (sum + s, count + 1),
            None => (sum, count),
        }
    }
}

/// The sum of the SNR readings that are later than `since`, and their number.
pub fn snr_stats_since(entries: &[PacketLogEntry], since: u64) -> (r: (i64, u64))
    requires
        entries@.len() <= MAX_SUMMED_ENTRIES,
    ensures
        (r.0 as int, r.1 as int) == snr_since(entries@, since),
        -32768 * r.1 <= r.0 <= 32767 * r.1,
        r.1 <= entries@.len(),
{
    let mut sum: i64 = 0;
    let mut count: u64 = 0;
    let mut n: usize = entries.len();
    assert(entries@.take(n as int) =~= entries@);
    while n > 0
        invariant
            entries@.len() <= MAX_SUMMED_ENTRIES,
            n <= entries@.len(),
            count <= entries@.len() - n,
            -32768 * count <= sum <= 32767 * count,
            snr_since(entries@, since) == (
                sum + snr_since(entries@.take(n as int), since).0,
                count + snr_since(entries@.take(n as int), since).1,
            ),
        ensures
            snr_since(entries@, since) == (sum as int, count as int),
        decreases n,
    {
        let ghost rest = entries@.take(n as int);
        let e: &PacketLogEntry = &entries[n - 1];
        assert(rest.last() == *e);
        assert(rest.drop_last() =~= entries@.take(n - 1));
        if e.timestamp <= since {
            break;
        }
        match e.snr {
            Some(s) => {
                sum = sum + s as i64;
                count = count + 1;
            },
            None => {},
        }
        n = n - 1;
    }
    (sum, count)
}

/// Law: the readings that are counted lie within the SNR's range, so their
/// average can be shown.
pub proof fn law_summed_snr_has_an_average(entries: Seq<PacketLogEntry>, since: u64)
    requires
        entries.len() <= MAX_SUMMED_ENTRIES,
    ensures
        ({
            let (sum, count) = snr_since(entries, since);
            &&& 0 <= count <= entries.len()
            &&& -32768 * count <= sum <= 32767 * count
            &&& (Bucket {
                radio_rx: 0,
                radio_tx: 0,
                snr_sum: sum as i64,
                snr_count: count as u64,
            }).level_fits()
        }),
{
    lemma_snr_bounds(entries, since);
    let (sum, count) = snr_since(entries, since);
    if count > 0 {
        let size = if sum < 0 {
            -sum
        } else {
            sum
        };
        assert(size / count <= 32768) by (nonlinear_arith)
            requires
                0 <= size <= 32768 * count,
                count > 0,
        ;
    }
}

proof fn lemma_snr_bounds(entries: Seq<PacketLogEntry>, since: u64)
    ensures
        ({
            let (sum, count) = snr_since(entries, since);
            &&& 0 <= count <= entries.len()
            &&& -32768 * count <= sum <= 32767 * count
        }),
    decreases entries.len(),
{
    if entries.len() > 0 {
        lemma_snr_bounds(entries.drop_last(), since);
    }
}

// ── Time series ─────────────────────────────────────────────────────

/// The last buckets, oldest first, and where the open one began. Times are
/// nanoseconds on a monotonic clock.
#[derive(Debug)]
pub struct TimeSeries {
    pub buckets: VecDeque<Bucket>,
    pub last_snap: StatsSnapshot,
    pub last_bucket_time: u64,
}

/// What a [`TimeSeries`] holds.
#[verifier::ext_equal]
pub struct SeriesView {
    pub buckets: Seq<Bucket>,
    pub last_snap: StatsSnapshot,
    pub last_bucket_time: u64,
}

impl View for TimeSeries {
    type V = SeriesView;

    open spec fn view(&self) -> SeriesView {
        SeriesView {
            buckets: self.buckets@,
            last_snap: self.last_snap,
            last_bucket_time: self.last_bucket_time,
        }
    }
}

/// `a - b`, or zero if that is negative.
pub open spec fn less(a: u64, b: u64) -> u64 {
    if a > b {
        (a - b) as u64
    } else {
        0
    }
}

impl SeriesView {
    /// The open bucket's time has passed.
    pub open spec fn due(self, now: u64) -> bool {
        less(now, self.last_bucket_time) / NANOS_PER_SEC >= BUCKET_SECS
    }

    /// The bucket that closes with the given counters and log.
    pub open spec fn closing(self, snap: StatsSnapshot, entries: Seq<PacketLogEntry>) -> Bucket {
        let (sum, count) = snr_since(entries, self.last_bucket_time);
        Bucket {
            radio_rx: less(snap.radio_rx, self.last_snap.radio_rx),
            radio_tx: less(snap.radio_tx, self.last_snap.radio_tx),
            snr_sum: sum as i64,
            snr_count: count as u64,
        }
    }

    /// The series after a look at the counters and the log at time `now`.
    pub open spec fn updated(
        self,
        snap: StatsSnapshot,
        entries: Seq<PacketLogEntry>,
        now: u64,
    ) -> SeriesView {
        if self.due(now) {
            let buckets = self.buckets.push(self.closing(snap, entries));
            SeriesView {
                buckets: if buckets.len() > MAX_BUCKETS {
                    buckets.skip(1)
                } else {
                    buckets
                },
                last_snap: snap,
                last_bucket_time: now,
            }
        } else {
            self
        }
    }
}

/// The largest of the values, or zero if there are none.
pub open spec fn max_of(values: Seq<u64>) -> u64
    decreases values.len(),
{
    if values.len() == 0 {
        0
    } else if values.last() > max_of(values.drop_last()) {
        values.last()
    } else {
        max_of(values.drop_last())
    }
}

/// The average SNR of the last bucket that has one.
pub open spec fn last_mean_snr(buckets: Seq<Bucket>) -> Option<int>
    decreases buckets.len(),
{
    if buckets.len() == 0 {
        None
    } else if buckets.last().snr_count > 0 {
        Some(buckets.last().mean_snr())
    } else {
        last_mean_snr(buckets.drop_last())
    }
}

impl TimeSeries {
    /// A series in which nothing has happened.
    pub fn new(snap: &StatsSnapshot, now: u64) -> (t: TimeSeries)
        ensures
            t@.buckets == Seq::new(MAX_BUCKETS as nat, |i: int| Bucket::idle()),
            t@.last_snap == *snap,
            t@.last_bucket_time == now,
    {
        let mut buckets: VecDeque<Bucket> = VecDeque::new();
        let mut i: usize = 0;
        while i < MAX_BUCKETS
            invariant
                i <= MAX_BUCKETS,
                buckets@ == Seq::new(i as nat, |j: int| Bucket::idle()),
            decreases MAX_BUCKETS - i,
        {
            buckets.push_back(Bucket::default());
            i = i + 1;
            assert(buckets@ =~= Seq::new(i as nat, |j: int| Bucket::idle()));
        }
        TimeSeries { buckets, last_snap: *snap, last_bucket_time: now }
    }

    /// Close the open bucket if its time has passed.
    pub fn update(&mut self, snap: &StatsSnapshot, log_entries: &[PacketLogEntry], now: u64)
        requires
            log_entries@.len() <= MAX_SUMMED_ENTRIES,
        ensures
            final(self)@ == old(self)@.updated(*snap, log_entries@, now),
    {
        let elapsed: u64 = now.saturating_sub(self.last_bucket_time);
        if elapsed / NANOS_PER_SEC >= BUCKET_SECS {
            let (snr_sum, snr_count): (i64, u64) = snr_stats_since(
                log_entries,
                self.last_bucket_time,
            );
            let bucket: Bucket = Bucket {
                radio_rx: snap.radio_rx.saturating_sub(self.last_snap.radio_rx),
                radio_tx: snap.radio_tx.saturating_sub(self.last_snap.radio_tx),
                snr_sum,
                snr_count,
            };
            let ghost before = self.buckets@;
            self.buckets.push_back(bucket);
            if self.buckets.len() > MAX_BUCKETS {
                let _ = self.buckets.pop_front();
                assert(self.buckets@ =~= before.push(bucket).skip(1));
            }
            self.last_snap = *snap;
            self.last_bucket_time = now;
        }
    }

    /// Packets received per bucket.
    pub fn radio_rx(&self) -> (out: Vec<u64>)
        ensures
            out@ == self@.buckets.map_values(|b: Bucket| b.radio_rx),
    {
        let mut out: Vec<u64> = Vec::new();
        let mut i: usize = 0;
        while i < self.buckets.len()
            invariant
                i <= self.buckets@.len(),
                out@.len() == i,
                forall|j: int| 0 <= j < i ==> out@[j] == self.buckets@[j].radio_rx,
            decreases self.buckets@.len() - i,
        {
            out.push(self.buckets[i].radio_rx);
            i = i + 1;
        }
        assert(out@ =~= self@.buckets.map_values(|b: Bucket| b.radio_rx));
        out
    }

    /// Packets transmitted per bucket.
    pub fn radio_tx(&self) -> (out: Vec<u64>)
        ensures
            out@ == self@.buckets.map_values(|b: Bucket| b.radio_tx),
    {
        let mut out: Vec<u64> = Vec::new();
        let mut i: usize = 0;
        while i < self.buckets.len()
            invariant
                i <= self.buckets@.len(),
                out@.len() == i,
                forall|j: int| 0 <= j < i ==> out@[j] == self.buckets@[j].radio_tx,
            decreases self.buckets@.len() - i,
        {
            out.push(self.buckets[i].radio_tx);
            i = i + 1;
        }
        assert(out@ =~= self@.buckets.map_values(|b: Bucket| b.radio_tx));
        out
    }

    /// Average SNR per bucket, as heights.
    pub fn avg_snr(&self) -> (out: Vec<u64>)
        requires
            forall|i: int|
                0 <= i < self@.buckets.len() ==> (#[trigger] self@.buckets[i]).level_fits(),
        ensures
            out@ == self@.buckets.map_values(|b: Bucket| b.snr_level()),
    {
        let mut out: Vec<u64> = Vec::new();
        let mut i: usize = 0;
        while i < self.buckets.len()
            invariant
                forall|i: int|
                    0 <= i < self@.buckets.len() ==> (#[trigger] self@.buckets[i]).level_fits(),
                i <= self.buckets@.len(),
                out@.len() == i,
                forall|j: int| 0 <= j < i ==> out@[j] == self.buckets@[j].snr_level(),
            decreases self.buckets@.len() - i,
        {
            let b: Bucket = self.buckets[i];
            assert(self@.buckets[i as int].level_fits());
            out.push(b.level());
            i = i + 1;
        }
        assert(out@ =~= self@.buckets.map_values(|b: Bucket| b.snr_level()));
        out
    }

    /// The most packets received in a bucket.
    pub fn peak_rx(&self) -> (peak: u64)
        ensures
            peak == max_of(self@.buckets.map_values(|b: Bucket| b.radio_rx)),
    {
        let values: Vec<u64> = self.radio_rx();
        peak_of(values.as_slice())
    }

    /// The most packets transmitted in a bucket.
    pub fn peak_tx(&self) -> (peak: u64)
        ensures
            peak == max_of(self@.buckets.map_values(|b: Bucket| b.radio_tx)),
    {
        let values: Vec<u64> = self.radio_tx();
        peak_of(values.as_slice())
    }

    /// The average SNR of the last bucket that has one.
    pub fn latest_avg_snr(&self) -> (r: Option<i64>)
        requires
            forall|i: int|
                0 <= i < self@.buckets.len() ==> (#[trigger] self@.buckets[i]).mean_fits(),
        ensures
            match r {
                Some(v) => last_mean_snr(self@.buckets) == Some(v as int),
                None => last_mean_snr(self@.buckets) is None,
            },
    {
        let mut n: usize = self.buckets.len();
        assert(self.buckets@.take(n as int) =~= self.buckets@);
        while n > 0
            invariant
                forall|i: int|
                    0 <= i < self@.buckets.len() ==> (#[trigger] self@.buckets[i]).mean_fits(),
                n <= self.buckets@.len(),
                last_mean_snr(self.buckets@) == last_mean_snr(self.buckets@.take(n as int)),
            decreases n,
        {
            let b: Bucket = self.buckets[n - 1];
            assert(self@.buckets[n - 1].mean_fits());
            assert(self.buckets@.take(n as int).drop_last() =~= self.buckets@.take(n - 1));
            if b.snr_count > 0 {
                return Some(b.average());
            }
            n = n - 1;
        }
        None
    }
}

fn peak_of(values: &[u64]) -> (peak: u64)
    ensures
        peak == max_of(values@),
{
    let mut peak: u64 = 0;
    let mut i: usize = 0;
    while i < values.len()
        invariant
            i <= values@.len(),
            peak == max_of(values@.take(i as int)),
        decreases values@.len() - i,
    {
        assert(values@.take(i + 1).drop_last() =~= values@.take(i as int));
        if values[i] > peak {
            peak = values[i];
        }
        i = i + 1;
    }
    assert(values@.take(i as int) =~= values@);
    peak
}

/// Law: no value is above the peak, and the peak is one of the values.
pub proof fn law_peak_is_reached(values: Seq<u64>)
    ensures
        forall|i: int| 0 <= i < values.len() ==> #[trigger] values[i] <= max_of(values),
        values.len() > 0 ==> values.contains(max_of(values)),
    decreases values.len(),
{
    if values.len() > 0 {
        let before = values.drop_last();
        law_peak_is_reached(before);
        assert forall|i: int| 0 <= i < values.len() implies #[trigger] values[i] <= max_of(
            values,
        ) by {
            if i < before.len() {
                assert(before[i] == values[i]);
            }
        }
        if before.len() > 0 && max_of(values) == max_of(before) {
            let i = choose|i: int| 0 <= i < before.len() && before[i] == max_of(before);
            assert(values[i] == max_of(values));
        } else {
            assert(values[values.len() - 1] == max_of(values));
        }
    }
}

/// Law: a series keeps the number of buckets it starts with.
pub proof fn law_series_keeps_its_length(
    v: SeriesView,
    snap: StatsSnapshot,
    entries: Seq<PacketLogEntry>,
    now: u64,
)
    requires
        v.buckets.len() == MAX_BUCKETS,
    ensures
        v.updated(snap, entries, now).buckets.len() == MAX_BUCKETS,
{
}

/// Law: every bucket that a series takes in can be shown.
pub proof fn law_series_can_be_shown(
    v: SeriesView,
    snap: StatsSnapshot,
    entries: Seq<PacketLogEntry>,
    now: u64,
)
    requires
        entries.len() <= MAX_SUMMED_ENTRIES,
        forall|i: int| 0 <= i < v.buckets.len() ==> (#[trigger] v.buckets[i]).level_fits(),
    ensures
        forall|i: int|
            0 <= i < v.updated(snap, entries, now).buckets.len() ==> (#[trigger] v.updated(
                snap,
                entries,
                now,
            ).buckets[i]).level_fits(),
{
    law_summed_snr_has_an_average(entries, v.last_bucket_time);
    assert(v.closing(snap, entries).level_fits());
    let w = v.updated(snap, entries, now);
    assert forall|i: int| 0 <= i < w.buckets.len() implies (#[trigger] w.buckets[i]).level_fits() by {
        if v.due(now) {
            let all = v.buckets.push(v.closing(snap, entries));
            let j = if all.len() > MAX_BUCKETS {
                i + 1
            } else {
                i
            };
            assert(w.buckets[i] == all[j]);
            if j < v.buckets.len() {
                assert(all[j] == v.buckets[j]);
            }
        }
    }
}

/// Law: the average of a bucket with readings is their sum divided by their
/// number, with the fraction dropped: times the number it is no further from
/// zero than the sum, by less than the number.
pub proof fn law_average_drops_the_fraction(b: Bucket)
    requires
        0 < b.snr_count <= i64::MAX,
    ensures
        b.snr_sum >= 0 ==> {
            &&& 0 <= b.mean_snr() * b.snr_count <= b.snr_sum
            &&& b.snr_sum - b.mean_snr() * b.snr_count < b.snr_count
        },
        b.snr_sum < 0 ==> {
            &&& b.snr_sum <= b.mean_snr() * b.snr_count <= 0
            &&& b.mean_snr() * b.snr_count - b.snr_sum < b.snr_count
        },
{
    let n = b.snr_count as int;
    let size = if b.snr_sum < 0 {
        -(b.snr_sum as int)
    } else {
        b.snr_sum as int
    };
    let q = size / n;
    assert(0 <= q * n <= size && size - q * n < n) by (nonlinear_arith)
        requires
            n > 0,
            size >= 0,
            q == size / n,
    ;
    if b.snr_sum < 0 {
        assert(b.mean_snr() == -q);
        assert((-q) * n == -(q * n)) by (nonlinear_arith);
    } else {
        assert(b.mean_snr() == q);
    }
}

/// Law: what is drawn of each bucket. The counts are drawn as they are; the
/// average SNR is drawn thirty decibels up, at zero where that is negative or
/// where there is no reading.
pub proof fn law_buckets_are_drawn(
    t: TimeSeries,
    rx: Vec<u64>,
    tx: Vec<u64>,
    snr: Vec<u64>,
    i: int,
)
    requires
        0 <= i < t.buckets@.len(),
        t.buckets@[i].level_fits(),
        call_ensures(TimeSeries::radio_rx, (&t,), rx),
        call_ensures(TimeSeries::radio_tx, (&t,), tx),
        call_ensures(TimeSeries::avg_snr, (&t,), snr),
    ensures
        rx@.len() == t.buckets@.len(),
        tx@.len() == t.buckets@.len(),
        snr@.len() == t.buckets@.len(),
        rx@[i] == t.buckets@[i].radio_rx,
        tx@[i] == t.buckets@[i].radio_tx,
        ({
            let b = t.buckets@[i];
            &&& b.snr_count == 0 ==> snr@[i] == 0
            &&& b.snr_count > 0 && b.mean_snr() >= -30 ==> snr@[i] == b.mean_snr() + 30
            &&& b.snr_count > 0 && b.mean_snr() < -30 ==> snr@[i] == 0
        }),
{
}

/// Law: the peaks are the largest counts: no bucket has more, and unless it
/// is zero some bucket has as many.
pub proof fn law_peaks_of_the_series(t: TimeSeries, rx: u64, tx: u64)
    requires
        call_ensures(TimeSeries::peak_rx, (&t,), rx),
        call_ensures(TimeSeries::peak_tx, (&t,), tx),
    ensures
        forall|i: int|
            0 <= i < t.buckets@.len() ==> (#[trigger] t.buckets@[i]).radio_rx <= rx
                && t.buckets@[i].radio_tx <= tx,
        rx > 0 ==> exists|i: int|
            0 <= i < t.buckets@.len() && (#[trigger] t.buckets@[i]).radio_rx == rx,
        tx > 0 ==> exists|i: int|
            0 <= i < t.buckets@.len() && (#[trigger] t.buckets@[i]).radio_tx == tx,
{
    let r = t@.buckets.map_values(|b: Bucket| b.radio_rx);
    let s = t@.buckets.map_values(|b: Bucket| b.radio_tx);
    law_peak_is_reached(r);
    law_peak_is_reached(s);
    assert forall|i: int| 0 <= i < t.buckets@.len() implies (#[trigger] t.buckets@[i]).radio_rx
        <= rx && t.buckets@[i].radio_tx <= tx by {
        assert(r[i] == t.buckets@[i].radio_rx);
        assert(s[i] == t.buckets@[i].radio_tx);
    }
    if rx > 0 {
        let i = choose|i: int| 0 <= i < r.len() && r[i] == rx;
        assert(t.buckets@[i].radio_rx == rx);
    }
    if tx > 0 {
        let i = choose|i: int| 0 <= i < s.len() && s[i] == tx;
        assert(t.buckets@[i].radio_tx == tx);
    }
}

/// Law: the latest average is that of the last bucket with readings, and there
/// is none if and only if no bucket has any.
pub proof fn law_latest_average(t: TimeSeries, r: Option<i64>)
    requires
        call_ensures(TimeSeries::latest_avg_snr, (&t,), r),
    ensures
        r is None <==> forall|i: int|
            0 <= i < t.buckets@.len() ==> (#[trigger] t.buckets@[i]).snr_count == 0,
        forall|i: int|
            0 <= i < t.buckets@.len() && (#[trigger] t.buckets@[i]).snr_count > 0 && (forall|j: int|
                i < j < t.buckets@.len() ==> (#[trigger] t.buckets@[j]).snr_count == 0) ==> {
                &&& r is Some
                &&& r->Some_0 == t.buckets@[i].mean_snr()
            },
{
    lemma_no_average(t.buckets@);
    assert forall|i: int|
        0 <= i < t.buckets@.len() && (#[trigger] t.buckets@[i]).snr_count > 0 && (forall|j: int|
            i < j < t.buckets@.len() ==> (#[trigger] t.buckets@[j]).snr_count == 0) implies {
        &&& r is Some
        &&& r->Some_0 == t.buckets@[i].mean_snr()
    } by {
        lemma_last_average(t.buckets@, i);
    }
}

proof fn lemma_no_average(buckets: Seq<Bucket>)
    ensures
        last_mean_snr(buckets) is None <==> forall|i: int|
            0 <= i < buckets.len() ==> (#[trigger] buckets[i]).snr_count == 0,
    decreases buckets.len(),
{
    if buckets.len() > 0 {
        let before = buckets.drop_last();
        lemma_no_average(before);
        if last_mean_snr(buckets) is None {
            assert forall|i: int| 0 <= i < buckets.len() implies (#[trigger] buckets[i]).snr_count
                == 0 by {
                if i < before.len() {
                    assert(before[i] == buckets[i]);
                }
            }
        } else if buckets.last().snr_count > 0 {
            assert(buckets[buckets.len() - 1].snr_count > 0);
        } else {
            let i = choose|i: int| 0 <= i < before.len() && (#[trigger] before[i]).snr_count != 0;
            assert(buckets[i] == before[i]);
        }
    }
}

proof fn lemma_last_average(buckets: Seq<Bucket>, i: int)
    requires
        0 <= i < buckets.len(),
        buckets[i].snr_count > 0,
        forall|j: int| i < j < buckets.len() ==> (#[trigger] buckets[j]).snr_count == 0,
    ensures
        last_mean_snr(buckets) == Some(buckets[i].mean_snr()),
    decreases buckets.len(),
{
    let last = buckets.len() - 1;
    if i < last {
        let before = buckets.drop_last();
        assert(buckets[last].snr_count == 0);
        assert forall|j: int| i < j < before.len() implies (#[trigger] before[j]).snr_count
            == 0 by {
            assert(before[j] == buckets[j]);
        }
        lemma_last_average(before, i);
    }
}

/// The sum and number of all the SNR readings that are later than `since`.
pub open spec fn readings_after(entries: Seq<PacketLogEntry>, since: u64) -> (int, int)
    decreases entries.len(),
{
    if entries.len() == 0 {
        (0, 0)
    } else {
        let (sum, count) = readings_after(entries.drop_first(), since);
        if entries[0].timestamp > since && entries[0].snr is Some {
            (sum + entries[0].snr->Some_0, count + 1)
        } else {
            (sum, count)
        }
    }
}

/// Law: of a log in the order of time, every reading that is later than the
/// given time is summed up and counted, and no other.
pub proof fn law_every_later_reading_counts(
    entries: &[PacketLogEntry],
    since: u64,
    r: (i64, u64),
)
    requires
        forall|i: int, j: int|
            0 <= i <= j < entries@.len() ==> (#[trigger] entries@[i]).timestamp <= (
            #[trigger] entries@[j]).timestamp,
        call_ensures(snr_stats_since, (entries, since), r),
    ensures
        r.0 == readings_after(entries@, since).0,
        r.1 == readings_after(entries@, since).1,
{
    lemma_later_readings(entries@, since);
}

proof fn lemma_later_readings(entries: Seq<PacketLogEntry>, since: u64)
    requires
        forall|i: int, j: int|
            0 <= i <= j < entries.len() ==> (#[trigger] entries[i]).timestamp <= (
            #[trigger] entries[j]).timestamp,
    ensures
        snr_since(entries, since) == readings_after(entries, since),
    decreases entries.len(),
{
    if entries.len() > 0 {
        let last = entries.len() - 1;
        let before = entries.drop_last();
        lemma_readings_push(before, entries[last], since);
        assert(before.push(entries[last]) =~= entries);
        if entries[last].timestamp <= since {
            assert forall|i: int| 0 <= i < entries.len() implies (#[trigger] entries[i]).timestamp
                <= since by {
                assert(entries[i].timestamp <= entries[last].timestamp);
            }
            lemma_no_later_readings(entries, since);
        } else {
            lemma_later_readings(before, since);
        }
    }
}

proof fn lemma_readings_push(entries: Seq<PacketLogEntry>, e: PacketLogEntry, since: u64)
    ensures
        readings_after(entries.push(e), since) == (if e.timestamp > since && e.snr is Some {
            (
                readings_after(entries, since).0 + e.snr->Some_0,
                readings_after(entries, since).1 + 1,
            )
        } else {
            readings_after(entries, since)
        }),
    decreases entries.len(),
{
    let all = entries.push(e);
    if entries.len() == 0 {
        assert(all.drop_first() =~= entries);
    } else {
        assert(all.drop_first() =~= entries.drop_first().push(e));
        assert(all[0] == entries[0]);
        lemma_readings_push(entries.drop_first(), e, since);
    }
}

proof fn lemma_no_later_readings(entries: Seq<PacketLogEntry>, since: u64)
    requires
        forall|i: int| 0 <= i < entries.len() ==> (#[trigger] entries[i]).timestamp <= since,
    ensures
        readings_after(entries, since) == (0int, 0int),
    decreases entries.len(),
{
    if entries.len() > 0 {
        let rest = entries.drop_first();
        assert forall|i: int| 0 <= i < rest.len() implies (#[trigger] rest[i]).timestamp
            <= since by {
            assert(rest[i] == entries[i + 1]);
        }
        lemma_no_later_readings(rest, since);
    }
}

/// Law: a bucket closes once a second has passed since the last one did, and
/// not before. It takes in by how much the counters have grown and what the
/// log has read since; the series then goes on from these counters and this
/// time, with the other buckets in their order and, of three hundred, the
/// oldest gone.
pub proof fn law_bucket_closes_every_second(
    v: SeriesView,
    snap: StatsSnapshot,
    entries: Seq<PacketLogEntry>,
    now: u64,
)
    requires
        entries.len() <= MAX_SUMMED_ENTRIES,
        v.buckets.len() == 300,
    ensures
        ({
            let w = v.updated(snap, entries, now);
            let b = w.buckets[299];
            &&& now - v.last_bucket_time < 1_000_000_000 ==> w == v
            &&& now - v.last_bucket_time >= 1_000_000_000 ==> {
                &&& w.buckets.len() == 300
                &&& forall|i: int| 0 <= i < 299 ==> #[trigger] w.buckets[i] == v.buckets[i + 1]
                &&& w.last_snap == snap
                &&& w.last_bucket_time == now
                &&& snap.radio_rx >= v.last_snap.radio_rx ==> v.last_snap.radio_rx + b.radio_rx
                    == snap.radio_rx
                &&& snap.radio_rx < v.last_snap.radio_rx ==> b.radio_rx == 0
                &&& snap.radio_tx >= v.last_snap.radio_tx ==> v.last_snap.radio_tx + b.radio_tx
                    == snap.radio_tx
                &&& snap.radio_tx < v.last_snap.radio_tx ==> b.radio_tx == 0
                &&& b.snr_sum == snr_since(entries, v.last_bucket_time).0
                &&& b.snr_count == snr_since(entries, v.last_bucket_time).1
            }
        }),
{
    lemma_snr_bounds(entries, v.last_bucket_time);
}

/// Law: a look at the counters and the log closes a bucket once a second has
/// passed, and changes nothing before.
pub proof fn law_update_every_second(
    t: &mut TimeSeries,
    snap: StatsSnapshot,
    entries: &[PacketLogEntry],
    now: u64,
)
    requires
        call_ensures(TimeSeries::update, (t, &snap, entries, now), ()),
        entries@.len() <= MAX_SUMMED_ENTRIES,
        old(t).buckets@.len() == 300,
    ensures
        now - old(t).last_bucket_time < 1_000_000_000 ==> final(t)@ == old(t)@,
        now - old(t).last_bucket_time >= 1_000_000_000 ==> {
            let b = final(t).buckets@[299];
            &&& final(t).buckets@.len() == 300
            &&& forall|i: int|
                0 <= i < 299 ==> #[trigger] final(t).buckets@[i] == old(t).buckets@[i + 1]
            &&& final(t).last_snap == snap
            &&& final(t).last_bucket_time == now
            &&& snap.radio_rx >= old(t).last_snap.radio_rx ==> old(t).last_snap.radio_rx
                + b.radio_rx == snap.radio_rx
            &&& snap.radio_tx >= old(t).last_snap.radio_tx ==> old(t).last_snap.radio_tx
                + b.radio_tx == snap.radio_tx
            &&& b.snr_sum == snr_since(entries@, old(t).last_bucket_time).0
            &&& b.snr_count == snr_since(entries@, old(t).last_bucket_time).1
        },
{
    law_bucket_closes_every_second(old(t)@, snap, entries@, now);
    let w = old(t)@.updated(snap, entries@, now);
    assert(final(t)@ == w);
    assert(final(t).buckets@ == w.buckets);
}

/// Law: a new series has three hundred buckets in which nothing happened, and
/// goes on from the given counters and time.
pub proof fn law_new_series(snap: StatsSnapshot, now: u64, t: TimeSeries, i: int)
    requires
        call_ensures(TimeSeries::new, (&snap, now), t),
        0 <= i < 300,
    ensures
        t.buckets@.len() == 300,
        t.buckets@[i] == (Bucket { radio_rx: 0, radio_tx: 0, snr_sum: 0, snr_count: 0 }),
        t.last_snap == snap,
        t.last_bucket_time == now,
{
    assert(t@.buckets[i] == Bucket::idle());
}

// ── Sparkline data ──────────────────────────────────────────────────

/// The last `width` values, with zeros in front where there are fewer.
pub open spec fn right_aligned(data: Seq<u64>, width: nat) -> Seq<u64> {
    Seq::new(
        width,
        |i: int|
            if i + data.len() < width {
                0
            } else {
                data[i + data.len() - width]
            },
    )
}

/// Pad data with leading zeros so values are right-aligned in `width` columns.
pub fn pad_right_align(data: &[u64], width: usize) -> (out: Vec<u64>)
    ensures
        out@ == right_aligned(data@, width as nat),
{
    let tail_start: usize = data.len().saturating_sub(width);
    let tail_len: usize = data.len() - tail_start;
    let mut padded: Vec<u64> = Vec::new();
    let mut i: usize = 0;
    while i < width - tail_len
        invariant
            tail_len <= width,
            i <= width - tail_len,
            padded@.len() == i,
            forall|j: int| 0 <= j < i ==> padded@[j] == 0,
        decreases width - tail_len - i,
    {
        padded.push(0);
        i = i + 1;
    }
    let ghost zeros = padded@;
    let tail: &[u64] = &data[tail_start..data.len()];
    padded.extend_from_slice(tail);
    assert(padded@ =~= zeros + data@.skip(tail_start as int));
    assert(padded@ =~= right_aligned(data@, width as nat));
    padded
}

/// Law: counted from the right, each column shows the value as far from the
/// end of the data, and the columns beyond the data show zero.
pub proof fn law_newest_value_is_at_the_right(data: &[u64], width: usize, out: Vec<u64>, k: int)
    requires
        call_ensures(pad_right_align, (data, width), out),
        1 <= k <= width,
    ensures
        out@.len() == width,
        k <= data@.len() ==> out@[width - k] == data@[data@.len() - k],
        k > data@.len() ==> out@[width - k] == 0,
{
}

} // verus!
