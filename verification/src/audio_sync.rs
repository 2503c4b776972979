//! The bookkeeping of the audio sync probe: sliding windows of samples, when a window is
//! due for a lag estimate, and where a lag falls in a circular correlation.
//!
//! The sample arithmetic (energy, the FFT correlation, drift) stays with the front end.

use vstd::prelude::*;
use std::collections::VecDeque;
use crate::bounded::{last_n, lemma_last_n_push};

verus! {

/// The smallest window the probe accepts.
pub const MIN_WINDOW_SAMPLES: usize = 256;

/// Which input a chunk of samples came from.
#[derive(Clone, Copy, Debug, PartialEq, Eq, Structural)]
pub enum SyncProbeInputSide {
    Reference,
    Observed,
}

/// The index of `lag` in a circular correlation of length `fft_len`: non-negative lags
/// count from the start, negative ones from the end.
pub fn idx_for_lag(lag: isize, fft_len: usize) -> (r: usize)
    requires
        fft_len <= isize::MAX,
        lag < 0 ==> fft_len + lag >= 0,
    ensures
        r == if lag >= 0 { lag as int } else { fft_len + lag },
{
    if lag >= 0 {
        lag as usize
    } else {
        (fft_len as isize + lag) as usize
    }
}

/// `p` is a power of two.
pub open spec fn is_pow2(p: nat) -> bool
    decreases p,
{
    if p == 1 {
        true
    } else if p < 1 || p % 2 == 1 {
        false
    } else {
        is_pow2(p / 2)
    }
}

/// The length of the correlation for windows of `window_samples`: the smallest power of
/// two that holds two windows. Past `usize::MAX / 4 + 1` samples no such power of two
/// fits in a `usize`.
pub fn fft_len_for(window_samples: usize) -> (r: usize)
    requires
        window_samples <= usize::MAX / 4 + 1,
    ensures
        is_pow2(r as nat),
        r >= 2 * window_samples,
        r == 1 || r < 4 * window_samples,
{
    let target = window_samples * 2;
    let mut p: usize = 1;
    while p < target
        invariant
            is_pow2(p as nat),
            target == window_samples * 2,
            target <= usize::MAX / 2 + 1,
            p == 1 || p < 2 * target,
        decreases 2 * target - p,
    {
        assert(is_pow2((p * 2) as nat)) by {
            assert((p * 2) as nat / 2 == p as nat);
            assert((p * 2) as nat % 2 == 0);
        }
        p = p * 2;
    }
    p
}

/// The sizes a probe works with, made sane: windows of at least `MIN_WINDOW_SAMPLES`, a
/// lag shorter than a window, and intervals of at least one sample.
#[derive(Clone, Copy, Debug, PartialEq, Eq, Structural)]
pub struct ProbeSizes {
    pub window_samples: usize,
    pub max_lag_samples: usize,
    pub interval_samples: usize,
    pub level_interval_samples: usize,
}

/// Makes requested sizes sane.
pub fn normalize_sizes(
    window_samples: usize,
    max_lag_samples: usize,
    interval_samples: usize,
    level_interval_samples: usize,
) -> (r: ProbeSizes)
    ensures
        r.window_samples == if window_samples < MIN_WINDOW_SAMPLES { MIN_WINDOW_SAMPLES } else { window_samples },
        r.max_lag_samples == if max_lag_samples < r.window_samples - 1 {
            max_lag_samples as int
        } else {
            r.window_samples - 1
        },
        r.interval_samples == if interval_samples < 1 { 1 } else { interval_samples },
        r.level_interval_samples == if level_interval_samples < 1 { 1 } else { level_interval_samples },
{
    let window = if window_samples < MIN_WINDOW_SAMPLES {
        MIN_WINDOW_SAMPLES
    } else {
        window_samples
    };
    let max_lag = if max_lag_samples < window - 1 {
        max_lag_samples
    } else {
        window - 1
    };
    ProbeSizes {
        window_samples: window,
        max_lag_samples: max_lag,
        interval_samples: if interval_samples < 1 { 1 } else { interval_samples },
        level_interval_samples: if level_interval_samples < 1 { 1 } else { level_interval_samples },
    }
}

/// Appends `data` to a sliding window of `window_samples` samples, dropping the oldest.
pub fn append_history<T: Copy>(window_samples: usize, history: &mut VecDeque<T>, data: &[T])
    requires
        window_samples > 0,
        old(history)@.len() <= window_samples,
    ensures
        final(history)@ == last_n(old(history)@ + data@, window_samples as nat),
{
    let ghost start = history@;
    let mut i: usize = 0;
    proof {
        assert(start + data@.take(0) =~= start);
    }
    while i < data.len()
        invariant
            window_samples > 0,
            i <= data@.len(),
            history@.len() <= window_samples,
            history@ == last_n(start + data@.take(i as int), window_samples as nat),
        decreases data.len() - i,
    {
        let sample = data[i];
        if history.len() == window_samples {
            let _ = history.pop_front();
        }
        history.push_back(sample);
        proof {
            lemma_last_n_push(start + data@.take(i as int), sample, window_samples as nat);
            assert(start + data@.take(i + 1) =~= (start + data@.take(i as int)).push(sample));
            assert(history@ =~= last_n(last_n(start + data@.take(i as int), window_samples as nat).push(sample), window_samples as nat));
        }
        i += 1;
    }
    proof {
        assert(data@.take(data@.len() as int) =~= data@);
    }
}

/// When the probe measures: it counts the samples it has seen, how full each sliding
/// window is, and how far it is into the current interval.
pub struct ProbeSchedule {
    pub window_samples: usize,
    pub interval_samples: usize,
    pub reference_len: usize,
    pub observed_len: usize,
    pub interval_progress: usize,
    pub processed_samples: u64,
}

impl ProbeSchedule {
    /// The windows never hold more than a window, and the interval is positive.
    pub open spec fn wf(&self) -> bool {
        &&& self.window_samples > 0
        &&& self.interval_samples > 0
        &&& self.reference_len <= self.window_samples
        &&& self.observed_len <= self.window_samples
    }

    /// A schedule that has seen nothing.
    pub fn new(sizes: ProbeSizes) -> (r: Self)
        requires
            sizes.window_samples > 0,
            sizes.interval_samples > 0,
        ensures
            r.wf(),
            r.window_samples == sizes.window_samples,
            r.interval_samples == sizes.interval_samples,
            r.reference_len == 0 && r.observed_len == 0,
            r.interval_progress == 0,
            r.processed_samples == 0,
    {
        ProbeSchedule {
            window_samples: sizes.window_samples,
            interval_samples: sizes.interval_samples,
            reference_len: 0,
            observed_len: 0,
            interval_progress: 0,
            processed_samples: 0,
        }
    }

    /// Accounts for `reference_len` and `observed_len` new samples, of which the probe
    /// uses as many as both sides have; returns how many it used and whether a
    /// measurement is due, which starts a new interval.
    pub fn observe(&mut self, reference_len: usize, observed_len: usize) -> (r: (usize, bool))
        requires
            old(self).wf(),
            old(self).processed_samples + reference_len <= u64::MAX,
            old(self).interval_progress + reference_len <= usize::MAX,
        ensures
            final(self).wf(),
            r.0 == if reference_len < observed_len { reference_len } else { observed_len },
            r.0 == 0 ==> *final(self) == *old(self) && !r.1,
            r.0 > 0 ==> {
                let used = r.0;
                let progress = old(self).interval_progress + used;
                let full_ref = if old(self).reference_len + used > old(self).window_samples {
                    old(self).window_samples as int
                } else {
                    old(self).reference_len + used
                };
                let full_obs = if old(self).observed_len + used > old(self).window_samples {
                    old(self).window_samples as int
                } else {
                    old(self).observed_len + used
                };
                let due = full_ref == old(self).window_samples && full_obs == old(self).window_samples
                    && progress >= old(self).interval_samples;
                &&& final(self).window_samples == old(self).window_samples
                &&& final(self).interval_samples == old(self).interval_samples
                &&& final(self).reference_len == full_ref
                &&& final(self).observed_len == full_obs
                &&& final(self).processed_samples == old(self).processed_samples + used
                &&& final(self).interval_progress == if due { 0 } else { progress }
                &&& r.1 == due
            },
    {
        let used = if reference_len < observed_len {
            reference_len
        } else {
            observed_len
        };
        if used == 0 {
            return (0, false);
        }
        let room_ref = self.window_samples - self.reference_len;
        self.reference_len = if used > room_ref {
            self.window_samples
        } else {
            self.reference_len + used
        };
        let room_obs = self.window_samples - self.observed_len;
        self.observed_len = if used > room_obs {
            self.window_samples
        } else {
            self.observed_len + used
        };
        self.processed_samples = self.processed_samples + used as u64;
        self.interval_progress = self.interval_progress + used;
        if self.reference_len < self.window_samples || self.observed_len < self.window_samples
            || self.interval_progress < self.interval_samples {
            return (used, false);
        }
        self.interval_progress = 0;
        (used, true)
    }
}

/// Channel `c` of `n` interleaved channels: every `n`-th sample, starting at `c`.
pub open spec fn channel_of<T>(samples: Seq<T>, n: nat, c: nat) -> Seq<T>
    recommends
        n > 0,
{
    Seq::new(
        if samples.len() > c { ((samples.len() - c - 1) as nat / n + 1) as nat } else { 0 },
        |i: int| samples[i * n + c],
    )
}

/// Splits interleaved samples into their channels; one channel or none is kept whole.
pub fn split_resampled_channels<T: Copy>(samples: &[T], channel_count: usize) -> (r: Vec<Vec<T>>)
    ensures
        channel_count <= 1 ==> r@.len() == 1 && r@[0]@ == samples@,
        channel_count > 1 ==> r@.len() == channel_count && forall|c: int|
            0 <= c < channel_count ==> (#[trigger] r@[c])@ == channel_of(samples@, channel_count as nat, c as nat),
{
    if channel_count <= 1 {
        let mut whole: Vec<T> = Vec::new();
        let mut i: usize = 0;
        while i < samples.len()
            invariant
                i <= samples@.len(),
                whole@ == samples@.take(i as int),
            decreases samples.len() - i,
        {
            whole.push(samples[i]);
            proof {
                assert(samples@.take(i + 1) =~= samples@.take(i as int).push(samples@[i as int]));
            }
            i += 1;
        }
        proof {
            assert(samples@.take(samples@.len() as int) =~= samples@);
        }
        let mut r: Vec<Vec<T>> = Vec::new();
        r.push(whole);
        return r;
    }
    let n = channel_count;
    let mut r: Vec<Vec<T>> = Vec::new();
    let mut c: usize = 0;
    while c < n
        invariant
            n == channel_count > 1,
            c <= n,
            r@.len() == c,
            forall|k: int| 0 <= k < c ==> (#[trigger] r@[k])@ == channel_of(samples@, n as nat, k as nat),
        decreases n - c,
    {
        let mut ch: Vec<T> = Vec::new();
        let mut j: usize = c;
        let ghost mut count: nat = 0;
        let ghost total = samples@.len();
        let ghost m: nat = if total > c { ((total - c - 1) as nat / n as nat + 1) as nat } else { 0 };
        while j < samples.len()
            invariant_except_break
                n > 1,
                c < n,
                total == samples@.len(),
                m == if total > c { ((total - c - 1) as nat / n as nat + 1) as nat } else { 0 },
                j == count * n + c,
                ch@.len() == count,
                forall|i: int| 0 <= i < count ==> #[trigger] ch@[i] == samples@[i * n + c],
                j < total ==> count < m,
                j >= total ==> count == m,
            ensures
                ch@.len() == m,
                forall|i: int| 0 <= i < m ==> #[trigger] ch@[i] == samples@[i * n + c],
            decreases m - count,
        {
            ch.push(samples[j]);
            proof {
                assert((count + 1) * n + c < total ==> count + 1 < m) by (nonlinear_arith)
                    requires n > 1, c < n, total > c, m == (total - c - 1) as nat / n as nat + 1, j == count * n + c;
                assert((count + 1) * n + c >= total ==> count + 1 == m) by (nonlinear_arith)
                    requires n > 1, c < n, total > c, m == (total - c - 1) as nat / n as nat + 1,
                        count * n + c < total, count < m;
                assert(count * n + n == (count + 1) * n) by (nonlinear_arith);
                count = count + 1;
            }
            match j.checked_add(n) {
                Some(next) => {
                    j = next;
                },
                None => {
                    proof {
                        assert(count == m);
                    }
                    break;
                },
            }
        }
        proof {
            assert(ch@ =~= channel_of(samples@, n as nat, c as nat));
        }
        r.push(ch);
        c += 1;
    }
    r
}

} // verus!
