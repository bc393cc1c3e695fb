//! Recent spot prices: velocity, smoothed velocity and acceleration.
use crate::j_laws::lemma_uint_finite;
use crate::market_laws::lemma_part_of;
use crate::num::Num;
use crate::num_error::{lemma_billionth, lemma_exact_one, lemma_one_times, lemma_sub_finite};
use crate::num_laws::{
    lemma_add_mono, lemma_div_order, lemma_mul_mag, lemma_mul_order, lemma_mul_share,
    lemma_mul_share_finite, lemma_negated, lemma_one_units, lemma_ratio_one, lemma_self_difference,
    lemma_sub_nonneg, lemma_sub_shrinks, lemma_sub_turned, lemma_thousand, lemma_whole_is_uint,
    lemma_zero_product, lemma_zero_sum, nonneg, unit,
};
use crate::num_ops::{lemma_ratio_mono, lemma_uint_is_ratio};
use crate::strategy::SpotSignalSnapshot;
use vstd::prelude::*;

verus! {

#[derive(Debug, Clone, Copy)]
pub struct SpotSample {
    pub timestamp_ms: i64,
    pub price: Num,
}

/// The newest samples, oldest first, and the smoothed velocity with its change.
#[derive(Debug, Clone)]
pub struct SpotSeries {
    pub samples: Vec<SpotSample>,
    pub max_samples: usize,
    pub smoothing_period_sec: Num,
    pub smoothed_velocity_usd_per_sec: Option<Num>,
    pub prev_smoothed_velocity_usd_per_sec: Option<Num>,
    pub acceleration_usd_per_sec2: Option<Num>,
}

pub open spec fn spec_normalize_event_timestamp_ms(timestamp: i64) -> i64 {
    if 0 < timestamp < 10_000_000_000 {
        (timestamp * 1000) as i64
    } else {
        timestamp
    }
}

/// A timestamp in milliseconds; one that can only be seconds is converted.
#[verifier::when_used_as_spec(spec_normalize_event_timestamp_ms)]
pub fn normalize_event_timestamp_ms(timestamp: i64) -> (r: i64)
    ensures
        r == spec_normalize_event_timestamp_ms(timestamp),
{
    if timestamp > 0 && timestamp < 10_000_000_000 {
        timestamp * 1000
    } else {
        timestamp
    }
}

/// Seconds between two moments, at least a millisecond.
pub open spec fn step_sec(from_ms: i64, to_ms: i64) -> Num {
    (Num::whole((to_ms - from_ms) as i64) / Num::uint(1000)).max(Num::ratio(1, 1000))
}

/// The newest `n` of some samples.
pub open spec fn newest(s: Seq<SpotSample>, n: nat) -> Seq<SpotSample> {
    if s.len() <= n {
        s
    } else {
        s.skip(s.len() - n)
    }
}

/// The sample that the recent velocity is measured from: the newest one that is at least
/// the window older than the latest, or the oldest of all.
pub open spec fn base_sample(s: Seq<SpotSample>, latest_ms: int, window_ms: int) -> SpotSample
    decreases s.len(),
{
    if s.len() <= 1 || latest_ms - s.last().timestamp_ms >= window_ms {
        s.last()
    } else {
        base_sample(s.drop_last(), latest_ms, window_ms)
    }
}

/// Velocity over the recent window; none without two moments.
pub open spec fn recent_velocity(s: Seq<SpotSample>, window_ms: int) -> Option<Num> {
    if s.len() == 0 {
        None
    } else {
        let latest = s.last();
        let base = base_sample(s, latest.timestamp_ms as int, window_ms);
        let dt = Num::whole((latest.timestamp_ms - base.timestamp_ms) as i64) / Num::uint(1000);
        if dt.le(Num::zero()) {
            None
        } else {
            Some((latest.price - base.price) / dt)
        }
    }
}

impl SpotSeries {
    /// Samples in order of time, no more than the limit, over a span that fits into an
    /// `i64`.
    pub open spec fn wf(self) -> bool {
        &&& self.samples@.len() <= self.max_samples
        &&& self.samples@.len() > 0 ==> self.samples@.last().timestamp_ms
            - self.samples@[0].timestamp_ms <= i64::MAX
        &&& forall|i: int, j: int|
            0 <= i < j < self.samples@.len() ==> (#[trigger] self.samples@[i]).timestamp_ms < (
            #[trigger] self.samples@[j]).timestamp_ms
    }

    /// Whether the span from the oldest sample to a moment fits into an `i64`.
    pub open spec fn reaches(self, timestamp: i64) -> bool {
        self.samples@.len() > 0 ==> normalize_event_timestamp_ms(timestamp)
            - self.samples@[0].timestamp_ms <= i64::MAX
    }

    pub fn new(max_samples: usize, smoothing_period_sec: Num) -> (r: Self)
        ensures
            r.wf(),
            r.samples@.len() == 0,
            r.max_samples == max_samples,
            r.smoothing_period_sec == smoothing_period_sec,
            r.smoothed_velocity_usd_per_sec is None,
            r.prev_smoothed_velocity_usd_per_sec is None,
            r.acceleration_usd_per_sec2 is None,
    {
        SpotSeries {
            samples: Vec::new(),
            max_samples,
            smoothing_period_sec,
            smoothed_velocity_usd_per_sec: None,
            prev_smoothed_velocity_usd_per_sec: None,
            acceleration_usd_per_sec2: None,
        }
    }

    /// Whether a tick counts: a positive price, later than the last sample.
    pub open spec fn takes(self, timestamp: i64, price: Num) -> bool {
        &&& !price.le(Num::zero())
        &&& self.samples@.len() > 0 ==> normalize_event_timestamp_ms(timestamp)
            > self.samples@.last().timestamp_ms
    }

    /// The span in seconds from the last sample to a tick, and the smoothing period that
    /// its decay is taken over; none for a tick that has no predecessor or does not count.
    pub fn decay_over(&self, timestamp: i64, price: Num) -> (r: Option<(Num, Num)>)
        requires
            self.wf(),
            self.reaches(timestamp),
        ensures
            r == if self.takes(timestamp, price) && self.samples@.len() > 0 {
                Some(
                    (
                        step_sec(
                            self.samples@.last().timestamp_ms,
                            normalize_event_timestamp_ms(timestamp),
                        ),
                        self.smoothing_period_sec.max(Num::ratio(1, 1000)),
                    ),
                )
            } else {
                None
            },
    {
        if price.le(Num::zero()) || self.samples.len() == 0 {
            return None;
        }
        let timestamp_ms: i64 = normalize_event_timestamp_ms(timestamp);
        let prev: SpotSample = self.samples[self.samples.len() - 1];
        if timestamp_ms <= prev.timestamp_ms {
            return None;
        }
        let dt_sec: Num = (Num::whole(timestamp_ms - prev.timestamp_ms) / Num::uint(1000)).max(
            Num::ratio(1, 1000),
        );
        Some((dt_sec, self.smoothing_period_sec.max(Num::ratio(1, 1000))))
    }

    /// The smoothed velocity after a tick, where `decay` is the weight that the old one
    /// keeps.
    pub open spec fn smoothed_after(self, timestamp: i64, price: Num, decay: Num) -> Num {
        let prev = self.samples@.last();
        let dt = step_sec(prev.timestamp_ms, normalize_event_timestamp_ms(timestamp));
        let raw = (price - prev.price) / dt;
        match self.smoothed_velocity_usd_per_sec {
            Some(old) => old + (Num::one() - decay) * (raw - old),
            None => raw,
        }
    }

    /// Whether `t` is the series `self` after a tick.
    pub open spec fn ticked(self, t: SpotSeries, timestamp: i64, price: Num, decay: Num) -> bool {
        let ms = normalize_event_timestamp_ms(timestamp);
        let grown = self.samples@.push(SpotSample { timestamp_ms: ms, price });
        let was = self.smoothed_velocity_usd_per_sec;
        if !self.takes(timestamp, price) {
            t == self
        } else {
            &&& t.samples@ == newest(grown, self.max_samples as nat)
            &&& t.max_samples == self.max_samples
            &&& t.smoothing_period_sec == self.smoothing_period_sec
            &&& if self.samples@.len() == 0 {
                &&& t.smoothed_velocity_usd_per_sec == was
                &&& t.prev_smoothed_velocity_usd_per_sec == self.prev_smoothed_velocity_usd_per_sec
                &&& t.acceleration_usd_per_sec2 == self.acceleration_usd_per_sec2
            } else {
                let next = self.smoothed_after(timestamp, price, decay);
                &&& t.smoothed_velocity_usd_per_sec == Some(next)
                &&& t.prev_smoothed_velocity_usd_per_sec == was
                &&& t.acceleration_usd_per_sec2 == match was {
                    Some(v) => Some((next - v) / step_sec(self.samples@.last().timestamp_ms, ms)),
                    None => None,
                }
            }
        }
    }

    /// Takes a tick. `decay` is e to the power of minus the span since the last sample
    /// over the smoothing period; it is not used for the first sample.
    pub fn observe(&mut self, timestamp: i64, price: Num, decay: Num)
        requires
            old(self).wf(),
            old(self).reaches(timestamp),
        ensures
            final(self).wf(),
            old(self).ticked(*final(self), timestamp, price, decay),
    {
        if price.le(Num::zero()) {
            return;
        }
        let timestamp_ms: i64 = normalize_event_timestamp_ms(timestamp);
        if self.samples.len() > 0 {
            let prev: SpotSample = self.samples[self.samples.len() - 1];
            if timestamp_ms <= prev.timestamp_ms {
                return;
            }
            let dt_sec: Num = (Num::whole(timestamp_ms - prev.timestamp_ms) / Num::uint(1000)).max(
                Num::ratio(1, 1000),
            );
            let raw_velocity: Num = (price - prev.price) / dt_sec;
            let alpha: Num = Num::one() - decay;
            let was: Option<Num> = self.smoothed_velocity_usd_per_sec;
            let next_smoothed: Num = match was {
                Some(p) => p + alpha * (raw_velocity - p),
                None => raw_velocity,
            };
            self.acceleration_usd_per_sec2 = match was {
                Some(p) => Some((next_smoothed - p) / dt_sec),
                None => None,
            };
            self.prev_smoothed_velocity_usd_per_sec = was;
            self.smoothed_velocity_usd_per_sec = Some(next_smoothed);
        }
        let ghost grown = self.samples@.push(SpotSample { timestamp_ms, price });
        self.samples.push(SpotSample { timestamp_ms, price });
        if self.samples.len() > self.max_samples {
            self.samples.remove(0);
            assert(self.samples@ =~= grown.skip(1));
        }
        assert(self.samples@ =~= newest(grown, self.max_samples as nat));
    }

    /// The velocity of the last twenty seconds, the smoothed one and its change.
    pub open spec fn signal(self) -> SpotSignalSnapshot {
        SpotSignalSnapshot {
            raw_velocity_usd_per_sec: recent_velocity(self.samples@, 20_000),
            smoothed_velocity_usd_per_sec: self.smoothed_velocity_usd_per_sec,
            acceleration_usd_per_sec2: self.acceleration_usd_per_sec2,
        }
    }

    pub fn snapshot(&self) -> (r: SpotSignalSnapshot)
        requires
            self.wf(),
        ensures
            r == (SpotSignalSnapshot {
                raw_velocity_usd_per_sec: recent_velocity(self.samples@, 20_000),
                smoothed_velocity_usd_per_sec: self.smoothed_velocity_usd_per_sec,
                acceleration_usd_per_sec2: self.acceleration_usd_per_sec2,
            }),
            r == self.signal(),
    {
        SpotSignalSnapshot {
            raw_velocity_usd_per_sec: self.raw_velocity_over_recent_window(20_000),
            smoothed_velocity_usd_per_sec: self.smoothed_velocity_usd_per_sec,
            acceleration_usd_per_sec2: self.acceleration_usd_per_sec2,
        }
    }

    pub fn raw_velocity_over_recent_window(&self, window_ms: i64) -> (r: Option<Num>)
        requires
            self.wf(),
        ensures
            r == recent_velocity(self.samples@, window_ms as int),
    {
        let n: usize = self.samples.len();
        if n == 0 {
            return None;
        }
        let latest: SpotSample = self.samples[n - 1];
        let mut k: usize = n;
        assert(self.samples@.take(n as int) == self.samples@);
        while k > 1 && latest.timestamp_ms - self.samples[k - 1].timestamp_ms < window_ms
            invariant
                self.wf(),
                1 <= k <= n,
                n == self.samples@.len(),
                latest == self.samples@[n - 1],
                base_sample(self.samples@, latest.timestamp_ms as int, window_ms as int)
                    == base_sample(
                    self.samples@.take(k as int),
                    latest.timestamp_ms as int,
                    window_ms as int,
                ),
            decreases k,
        {
            assert(self.samples@.take(k as int).drop_last() == self.samples@.take(k - 1));
            assert(self.samples@.take(k as int).last() == self.samples@[k - 1]);
            k = k - 1;
        }
        let earliest: SpotSample = self.samples[k - 1];
        assert(self.samples@.take(k as int).last() == earliest);
        let dt_sec: Num = Num::whole(latest.timestamp_ms - earliest.timestamp_ms) / Num::uint(1000);
        if dt_sec.le(Num::zero()) {
            return None;
        }
        Some((latest.price - earliest.price) / dt_sec)
    }
}

/// A moment in seconds and the same moment in milliseconds are one moment, from the first
/// months of 1970 on; and no moment is converted twice.
pub proof fn law_seconds_and_milliseconds_agree(secs: i64)
    requires
        10_000_000 <= secs < 10_000_000_000,
    ensures
        normalize_event_timestamp_ms(secs) == secs * 1000,
        normalize_event_timestamp_ms((secs * 1000) as i64) == normalize_event_timestamp_ms(secs),
{
}

/// The sample that the velocity is measured from is at least the window older than the
/// latest, or the oldest; every newer one is closer than the window.
pub proof fn law_base_is_a_window_away(s: Seq<SpotSample>, latest_ms: int, window_ms: int) -> (i: int)
    requires
        s.len() > 0,
    ensures
        0 <= i < s.len(),
        base_sample(s, latest_ms, window_ms) == s[i],
        i == 0 || latest_ms - s[i].timestamp_ms >= window_ms,
        forall|j: int| i < j < s.len() ==> latest_ms - (#[trigger] s[j]).timestamp_ms < window_ms,
    decreases s.len(),
{
    if s.len() <= 1 || latest_ms - s.last().timestamp_ms >= window_ms {
        s.len() - 1
    } else {
        let t = s.drop_last();
        let i = law_base_is_a_window_away(t, latest_ms, window_ms);
        assert forall|j: int| i < j < s.len() implies latest_ms - (
        #[trigger] s[j]).timestamp_ms < window_ms by {
            if j < s.len() - 1 {
                assert(t[j] == s[j]);
            }
        }
        i
    }
}

/// Where the latest price is no lower than any of the samples the recent velocity is not
/// negative, where it is no higher it is not positive, and where it has not moved it is
/// nothing.
pub proof fn law_velocity_has_the_sign_of_the_move(s: Seq<SpotSample>, window_ms: int)
    requires
        s.len() > 0,
        forall|i: int| 0 <= i < s.len() ==> nonneg((#[trigger] s[i]).price),
        forall|i: int, j: int|
            0 <= i < j < s.len() ==> (#[trigger] s[i]).timestamp_ms < (#[trigger] s[j]).timestamp_ms,
        s.last().timestamp_ms - s[0].timestamp_ms <= i64::MAX,
        recent_velocity(s, window_ms) is Some,
    ensures
        (forall|i: int| 0 <= i < s.len() ==> (#[trigger] s[i]).price.le(s.last().price))
            ==> recent_velocity(s, window_ms)->0.ge(Num::zero()),
        (forall|i: int| 0 <= i < s.len() ==> (#[trigger] s[i]).price.ge(s.last().price))
            ==> recent_velocity(s, window_ms)->0.le(Num::zero()),
{
    let latest = s.last();
    let i = law_base_is_a_window_away(s, latest.timestamp_ms as int, window_ms);
    let base = s[i];
    assert(latest == s[s.len() - 1]);
    let span = (latest.timestamp_ms - base.timestamp_ms) as i64;
    assert(0 <= latest.timestamp_ms - base.timestamp_ms <= i64::MAX) by {
        if i > 0 {
            assert(s[0].timestamp_ms < s[i].timestamp_ms);
        }
    }
    lemma_whole_is_uint(span);
    lemma_uint_finite(span as u64);
    lemma_thousand();
    lemma_ratio_one();
    lemma_uint_is_ratio(1000);
    lemma_ratio_mono(1, 1, 1000, 1);
    lemma_part_of(Num::uint(span as u64), Num::uint(1000));
    let dt = Num::whole(span) / Num::uint(1000);
    let d = latest.price - base.price;
    lemma_sub_finite(latest.price, base.price);
    lemma_sub_turned(latest.price, base.price);
    if base.price.le(latest.price) {
        lemma_sub_nonneg(latest.price, base.price);
    }
    if base.price.ge(latest.price) {
        lemma_sub_nonneg(base.price, latest.price);
    }
    lemma_div_order(d, d, dt);
}

/// A tick at or before the last sample, and one without a price, change nothing; any other
/// is the newest sample afterwards, and no more samples are kept than may be.
pub proof fn law_newest_tick_is_last(
    s: SpotSeries,
    t: SpotSeries,
    timestamp: i64,
    price: Num,
    decay: Num,
)
    requires
        s.wf(),
        s.ticked(t, timestamp, price, decay),
        s.max_samples > 0,
    ensures
        price.le(Num::zero()) ==> t == s,
        s.samples@.len() > 0 && normalize_event_timestamp_ms(timestamp)
            <= s.samples@.last().timestamp_ms ==> t == s,
        price.gt(Num::zero()) && (s.samples@.len() == 0 || normalize_event_timestamp_ms(timestamp)
            > s.samples@.last().timestamp_ms) ==> {
            &&& t.samples@.len() > 0
            &&& t.samples@.last().price == price
            &&& t.samples@.last().timestamp_ms == normalize_event_timestamp_ms(timestamp)
            &&& t.samples@.len() == s.samples@.len() + 1 || t.samples@.len() == s.max_samples
        },
        t.samples@.len() <= t.max_samples,
{
}

/// The smoothed velocity moves from the old one toward the raw one, never away from it, and
/// stays where the old one keeps all of the weight.
pub proof fn law_smoothing_moves_toward_the_raw_velocity(
    s: SpotSeries,
    timestamp: i64,
    price: Num,
    decay: Num,
)
    requires
        s.wf(),
        s.samples@.len() > 0,
        s.smoothed_velocity_usd_per_sec is Some,
        unit(decay),
        ({
            let prev = s.samples@.last();
            let dt = step_sec(prev.timestamp_ms, normalize_event_timestamp_ms(timestamp));
            let raw = (price - prev.price) / dt;
            let was = s.smoothed_velocity_usd_per_sec->0;
            &&& raw.is_finite() && was.is_finite() && (raw - was).is_finite()
        }),
    ensures
        ({
            let prev = s.samples@.last();
            let dt = step_sec(prev.timestamp_ms, normalize_event_timestamp_ms(timestamp));
            let raw = (price - prev.price) / dt;
            let was = s.smoothed_velocity_usd_per_sec->0;
            let next = s.smoothed_after(timestamp, price, decay);
            &&& was.le(raw) ==> was.le(next) && next.le(was + (raw - was))
            &&& raw.le(was) ==> next.le(was) && (was + (raw - was)).le(next)
            &&& decay == Num::one() ==> next.key() == was.key()
            &&& decay.mag() == 0 ==> next == was + (raw - was)
        }),
{
    let prev = s.samples@.last();
    let dt = step_sec(prev.timestamp_ms, normalize_event_timestamp_ms(timestamp));
    let raw = (price - prev.price) / dt;
    let was = s.smoothed_velocity_usd_per_sec->0;
    let d = raw - was;
    let w = Num::one() - decay;
    let one = Num::one();
    lemma_exact_one();
    lemma_sub_nonneg(one, decay);
    lemma_sub_shrinks(one, decay);
    lemma_sub_finite(one, decay);
    assert(unit(w));
    lemma_sub_turned(raw, was);
    if was.le(raw) {
        lemma_sub_nonneg(raw, was);
    }
    if raw.le(was) {
        lemma_sub_nonneg(was, raw);
    }
    lemma_mul_order(w, d, d);
    lemma_mul_share_finite(w, d);
    lemma_one_times(d);
    let m = w * d;
    // a share of the distance is no further than the distance
    lemma_mul_mag(w, d);
    let a = Num::of(false, d.mag());
    lemma_mul_share(w, a);
    lemma_mul_mag(w, a);
    assert(m.mag() <= d.mag());
    let z = Num::zero();
    lemma_zero_sum(was, z);
    if was.le(raw) {
        lemma_add_mono(z, m, was);
        lemma_add_mono(m, d, was);
    }
    if raw.le(was) {
        lemma_add_mono(m, z, was);
        lemma_add_mono(d, m, was);
    }
    if decay == one {
        lemma_self_difference(one);
        lemma_zero_product(w, d);
        lemma_zero_sum(was, m);
    }
    if decay.mag() == 0 {
        lemma_negated(decay);
        lemma_one_units();
        lemma_zero_sum(one, decay.negated());
        assert(w == one);
    }
}

/// A velocity that did not fall accelerates by no less than nothing, one that did not rise by
/// no more; the first velocity has no acceleration, and each notes the one before it.
pub proof fn law_acceleration_has_the_sign_of_the_change(
    s: SpotSeries,
    t: SpotSeries,
    timestamp: i64,
    price: Num,
    decay: Num,
)
    requires
        s.wf(),
        s.reaches(timestamp),
        s.ticked(t, timestamp, price, decay),
        s.takes(timestamp, price),
        s.samples@.len() > 0,
        t.smoothed_velocity_usd_per_sec is Some,
        (t.smoothed_velocity_usd_per_sec->0).is_finite(),
        s.smoothed_velocity_usd_per_sec is Some ==> (
        s.smoothed_velocity_usd_per_sec->0).is_finite(),
    ensures
        t.prev_smoothed_velocity_usd_per_sec == s.smoothed_velocity_usd_per_sec,
        s.smoothed_velocity_usd_per_sec is None ==> t.acceleration_usd_per_sec2 is None,
        ({
            let was = s.smoothed_velocity_usd_per_sec->0;
            let now = t.smoothed_velocity_usd_per_sec->0;
            s.smoothed_velocity_usd_per_sec is Some ==> {
                &&& t.acceleration_usd_per_sec2 is Some
                &&& was.le(now) ==> (t.acceleration_usd_per_sec2->0).ge(Num::zero())
                &&& now.le(was) ==> (t.acceleration_usd_per_sec2->0).le(Num::zero())
            }
        }),
{
    if s.smoothed_velocity_usd_per_sec is Some {
        let was = s.smoothed_velocity_usd_per_sec->0;
        let now = t.smoothed_velocity_usd_per_sec->0;
        let from = s.samples@.last().timestamp_ms;
        let to = normalize_event_timestamp_ms(timestamp);
        let span = (to - from) as i64;
        assert(s.samples@.last() == s.samples@[s.samples@.len() - 1]);
        assert(s.samples@[0].timestamp_ms <= from);
        lemma_whole_is_uint(span);
        lemma_uint_finite(span as u64);
        lemma_thousand();
        lemma_ratio_one();
        lemma_exact_one();
        lemma_uint_is_ratio(1000);
        lemma_ratio_mono(1, 1, 1000, 1);
        lemma_part_of(Num::uint(span as u64), Num::uint(1000));
        lemma_billionth();
        lemma_ratio_mono(1, 1_000_000_000, 1, 1000);
        lemma_ratio_mono(1, 1000, 1, 1);
        let dt = step_sec(from, to);
        assert(dt.is_finite() && dt.key() > 0);
        lemma_sub_turned(now, was);
        if was.le(now) {
            lemma_sub_nonneg(now, was);
        }
        if now.le(was) {
            lemma_sub_nonneg(was, now);
        }
        lemma_div_order(now - was, now - was, dt);
    }
}

/// The raw velocity that is shown is the move from one sample to the latest over the seconds
/// between them: from the newest sample that is twenty seconds old, or from the oldest where
/// none is.
pub proof fn law_shown_velocity_spans_twenty_seconds(s: SpotSeries) -> (i: int)
    requires
        s.wf(),
        s.samples@.len() > 0,
    ensures
        0 <= i < s.samples@.len(),
        ({
            let (base, latest) = (s.samples@[i], s.samples@.last());
            let span = latest.timestamp_ms - base.timestamp_ms;
            let shown = s.signal().raw_velocity_usd_per_sec;
            &&& i == 0 || span >= 20_000
            &&& forall|j: int|
                i < j < s.samples@.len() ==> latest.timestamp_ms - (
                #[trigger] s.samples@[j]).timestamp_ms < 20_000
            &&& shown is Some ==> shown->0 == (latest.price - base.price) / (Num::whole(span as i64)
                / Num::uint(1000))
        }),
        s.signal().smoothed_velocity_usd_per_sec == s.smoothed_velocity_usd_per_sec,
        s.signal().acceleration_usd_per_sec2 == s.acceleration_usd_per_sec2,
{
    law_base_is_a_window_away(s.samples@, s.samples@.last().timestamp_ms as int, 20_000)
}

} // verus!
