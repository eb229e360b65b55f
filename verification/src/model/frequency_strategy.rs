//! The rule that turns load samples into steps along the frequency table.
//!
//! A sample at or above `100 - margin` asks for the next higher frequency,
//! any other sample for the next lower one. Stepping down waits for a run of
//! low samples; both directions can be debounced further, and the polling
//! interval can follow how steady the load is.

use vstd::prelude::*;

verus! {

/// Polling interval for 120 samples per second, in microseconds.
pub const SAMPLING_INTERVAL_120HZ: u64 = 8333;

/// What a sample asks of the frequency index.
#[derive(Clone, Copy, PartialEq, Eq, Debug, Structural)]
pub enum Step {
    /// One index up.
    Up,
    /// One index down.
    Down,
    /// No change.
    Hold,
}

/// Parameters of the governor.
#[derive(Clone, Copy, Debug)]
pub struct FrequencyStrategy {
    /// Margin below full load, in percent: samples from `100 - margin` on are high.
    pub margin: i32,
    /// Number of consecutive low samples that a step down waits for.
    pub down_threshold: u32,
    /// Polling interval in microseconds when the interval is fixed.
    pub sampling_interval: u64,
    /// Step down on every low sample, without waiting for a run.
    pub aggressive_down: bool,
    /// Number of consecutive samples of one direction that any step waits for.
    pub load_stability_threshold: u32,
    /// Whether the polling interval follows the load.
    pub adaptive_sampling: bool,
    /// Shortest polling interval in microseconds.
    pub min_sampling_interval: u64,
    /// Longest polling interval in microseconds.
    pub max_sampling_interval: u64,
}

/// What the governor remembers from one sample to the next.
#[derive(Clone, Copy, Debug)]
pub struct Hysteresis {
    /// Length of the current run of high samples.
    pub up_streak: u32,
    /// Length of the current run of low samples.
    pub down_streak: u32,
    /// Low samples in the current run since the last step down.
    pub down_count: u32,
    /// Polling interval in microseconds in use.
    pub interval: u64,
}

/// One more, short of overflow.
pub open spec fn bump(n: u32) -> u32 {
    if n < u32::MAX {
        (n + 1) as u32
    } else {
        n
    }
}

/// `x` pulled into the range from `low` to `high`.
pub open spec fn clamp(x: u64, low: u64, high: u64) -> u64 {
    if x < low {
        low
    } else if x > high {
        high
    } else {
        x
    }
}

impl FrequencyStrategy {
    /// Whether `load` asks for a higher frequency.
    pub open spec fn is_high(self, load: i32) -> bool {
        load >= 100 - self.margin
    }

    /// Number of low samples in a row that a step down waits for.
    pub open spec fn lows_needed(self) -> int {
        if self.aggressive_down {
            1
        } else {
            self.down_threshold as int
        }
    }

    /// What the sample `load` asks for, given what was seen before it.
    pub open spec fn decision(self, h: Hysteresis, load: i32) -> Step {
        if self.is_high(load) {
            if bump(h.up_streak) >= self.load_stability_threshold {
                Step::Up
            } else {
                Step::Hold
            }
        } else {
            if bump(h.down_count) >= self.lows_needed() && bump(h.down_streak)
                >= self.load_stability_threshold {
                Step::Down
            } else {
                Step::Hold
            }
        }
    }

    /// The polling interval after a sample. With adaptive sampling off it is
    /// the fixed interval. With it on, a sample that turns the direction
    /// halves the interval and a sample that continues a run doubles it,
    /// within the bounds; the first sample of all only applies the bounds.
    pub open spec fn next_interval(self, h: Hysteresis, load: i32) -> u64 {
        let turned = if self.is_high(load) {
            h.down_streak > 0
        } else {
            h.up_streak > 0
        };
        let continued = if self.is_high(load) {
            h.up_streak > 0
        } else {
            h.down_streak > 0
        };
        if !self.adaptive_sampling {
            self.sampling_interval
        } else if turned {
            clamp(h.interval / 2, self.min_sampling_interval, self.max_sampling_interval)
        } else if continued {
            clamp(
                if h.interval > u64::MAX / 2 {
                    u64::MAX
                } else {
                    (h.interval * 2) as u64
                },
                self.min_sampling_interval,
                self.max_sampling_interval,
            )
        } else {
            clamp(h.interval, self.min_sampling_interval, self.max_sampling_interval)
        }
    }

    /// What is remembered after the sample `load`.
    pub open spec fn after(self, h: Hysteresis, load: i32) -> Hysteresis {
        if self.is_high(load) {
            Hysteresis {
                up_streak: bump(h.up_streak),
                down_streak: 0,
                down_count: 0,
                interval: self.next_interval(h, load),
            }
        } else {
            Hysteresis {
                up_streak: 0,
                down_streak: bump(h.down_streak),
                down_count: if self.decision(h, load) == Step::Down {
                    0
                } else {
                    bump(h.down_count)
                },
                interval: self.next_interval(h, load),
            }
        }
    }

    /// What is remembered after the samples `loads`, oldest first.
    pub open spec fn after_all(self, h: Hysteresis, loads: Seq<i32>) -> Hysteresis
        decreases loads.len(),
    {
        if loads.len() == 0 {
            h
        } else {
            self.after(self.after_all(h, loads.drop_last()), loads.last())
        }
    }

    /// The strategy in use before any configuration: no margin, a step down
    /// on every low sample, no debouncing, and a fixed interval of 120
    /// samples per second.
    pub fn new() -> (r: Self)
        ensures
            r == (FrequencyStrategy {
                margin: 0,
                down_threshold: 1,
                sampling_interval: SAMPLING_INTERVAL_120HZ,
                aggressive_down: true,
                load_stability_threshold: 1,
                adaptive_sampling: false,
                min_sampling_interval: SAMPLING_INTERVAL_120HZ,
                max_sampling_interval: SAMPLING_INTERVAL_120HZ,
            }),
    {
        FrequencyStrategy {
            margin: 0,
            down_threshold: 1,
            sampling_interval: SAMPLING_INTERVAL_120HZ,
            aggressive_down: true,
            load_stability_threshold: 1,
            adaptive_sampling: false,
            min_sampling_interval: SAMPLING_INTERVAL_120HZ,
            max_sampling_interval: SAMPLING_INTERVAL_120HZ,
        }
    }

    /// Sets margin, down threshold, fixed interval and the aggressive flag.
    pub fn configure_strategy(
        &mut self,
        margin: i32,
        down_threshold: u32,
        sampling_interval: u64,
        aggressive_down: bool,
    )
        ensures
            *final(self) == (FrequencyStrategy {
                margin,
                down_threshold,
                sampling_interval,
                aggressive_down,
                ..*old(self)
            }),
    {
        self.margin = margin;
        self.down_threshold = down_threshold;
        self.sampling_interval = sampling_interval;
        self.aggressive_down = aggressive_down;
    }

    /// Sets the number of agreeing samples that any step waits for.
    pub fn set_load_stability_threshold(&mut self, threshold: u32)
        ensures
            *final(self) == (FrequencyStrategy {
                load_stability_threshold: threshold,
                ..*old(self)
            }),
    {
        self.load_stability_threshold = threshold;
    }

    /// Turns adaptive sampling on or off and sets its bounds.
    pub fn set_adaptive_sampling(&mut self, enabled: bool, min_interval: u64, max_interval: u64)
        ensures
            *final(self) == (FrequencyStrategy {
                adaptive_sampling: enabled,
                min_sampling_interval: min_interval,
                max_sampling_interval: max_interval,
                ..*old(self)
            }),
    {
        self.adaptive_sampling = enabled;
        self.min_sampling_interval = min_interval;
        self.max_sampling_interval = max_interval;
    }

    /// Sets whether every low sample steps down.
    pub fn set_aggressive_down(&mut self, aggressive_down: bool)
        ensures
            *final(self) == (FrequencyStrategy { aggressive_down, ..*old(self) }),
    {
        self.aggressive_down = aggressive_down;
    }

    /// The margin in percent.
    pub fn get_margin(&self) -> (r: i32)
        ensures
            r == self.margin,
    {
        self.margin
    }

    /// The number of low samples that a step down waits for.
    pub fn get_down_threshold(&self) -> (r: u32)
        ensures
            r == self.down_threshold,
    {
        self.down_threshold
    }

    /// Takes in one load sample: updates the runs and the polling interval
    /// in `h`, and returns what the sample asks of the frequency index.
    pub fn decide(&self, h: &mut Hysteresis, load: i32) -> (r: Step)
        ensures
            r == self.decision(*old(h), load),
            *final(h) == self.after(*old(h), load),
    {
        let high = load as i64 >= 100 - self.margin as i64;
        let turned = if high {
            h.down_streak > 0
        } else {
            h.up_streak > 0
        };
        let continued = if high {
            h.up_streak > 0
        } else {
            h.down_streak > 0
        };
        let interval = if !self.adaptive_sampling {
            self.sampling_interval
        } else if turned {
            clamp_interval(h.interval / 2, self.min_sampling_interval, self.max_sampling_interval)
        } else if continued {
            let doubled = if h.interval > u64::MAX / 2 {
                u64::MAX
            } else {
                h.interval * 2
            };
            clamp_interval(doubled, self.min_sampling_interval, self.max_sampling_interval)
        } else {
            clamp_interval(h.interval, self.min_sampling_interval, self.max_sampling_interval)
        };
        h.interval = interval;
        if high {
            h.up_streak = bump_count(h.up_streak);
            h.down_streak = 0;
            h.down_count = 0;
            if h.up_streak >= self.load_stability_threshold {
                Step::Up
            } else {
                Step::Hold
            }
        } else {
            h.up_streak = 0;
            h.down_streak = bump_count(h.down_streak);
            h.down_count = bump_count(h.down_count);
            let needed = if self.aggressive_down {
                1
            } else {
                self.down_threshold
            };
            if h.down_count >= needed && h.down_streak >= self.load_stability_threshold {
                h.down_count = 0;
                Step::Down
            } else {
                Step::Hold
            }
        }
    }
}

impl Hysteresis {
    /// Nothing seen yet, polling at `interval` microseconds.
    pub fn new(interval: u64) -> (r: Self)
        ensures
            r == (Hysteresis { up_streak: 0, down_streak: 0, down_count: 0, interval }),
    {
        Hysteresis { up_streak: 0, down_streak: 0, down_count: 0, interval }
    }
}

/// One more, short of overflow.
fn bump_count(n: u32) -> (r: u32)
    ensures
        r == bump(n),
{
    if n < u32::MAX {
        n + 1
    } else {
        n
    }
}

/// `x` pulled into the range from `low` to `high`.
fn clamp_interval(x: u64, low: u64, high: u64) -> (r: u64)
    ensures
        r == clamp(x, low, high),
{
    if x < low {
        low
    } else if x > high {
        high
    } else {
        x
    }
}

/// Number of low samples in a row, counted from the start of a run, after
/// which the first step down comes: the larger of the run that a step down
/// waits for and the run that any step waits for, and at least one.
pub open spec fn first_down_after(st: FrequencyStrategy) -> int {
    let a = st.lows_needed();
    let b = st.load_stability_threshold as int;
    let m = if a >= b {
        a
    } else {
        b
    };
    if m < 1 {
        1
    } else {
        m
    }
}

/// In a run of low samples that starts with nothing counted, the counters
/// follow the length of the run as long as no step down has come.
proof fn lemma_low_run_counts(st: FrequencyStrategy, h: Hysteresis, loads: Seq<i32>, k: int)
    requires
        h.down_count == 0,
        h.down_streak == 0,
        forall|i: int| 0 <= i < loads.len() ==> !st.is_high(loads[i]),
        0 <= k <= loads.len(),
        k < first_down_after(st),
    ensures
        st.after_all(h, loads.take(k)).down_count == k,
        st.after_all(h, loads.take(k)).down_streak == k,
    decreases k,
{
    if k > 0 {
        lemma_low_run_counts(st, h, loads, k - 1);
        assert(loads.take(k).drop_last() =~= loads.take(k - 1));
        assert(loads.take(k).last() == loads[k - 1]);
    }
}

/// A step down waits for a run of low samples. Counted from the start of
/// such a run, every sample before the one with number
/// [`first_down_after`] holds the index, and that sample steps it down.
/// Without debouncing this is the down threshold, and one sample when every
/// low sample steps down.
pub proof fn lemma_step_down_waits_for_run(
    st: FrequencyStrategy,
    h: Hysteresis,
    loads: Seq<i32>,
    k: int,
)
    requires
        h.down_count == 0,
        h.down_streak == 0,
        forall|i: int| 0 <= i < loads.len() ==> !st.is_high(loads[i]),
        0 <= k < loads.len(),
        k < first_down_after(st),
    ensures
        k + 1 < first_down_after(st) ==> st.decision(st.after_all(h, loads.take(k)), loads[k])
            == Step::Hold,
        k + 1 == first_down_after(st) ==> st.decision(st.after_all(h, loads.take(k)), loads[k])
            == Step::Down,
        st.load_stability_threshold <= 1 && !st.aggressive_down && st.down_threshold >= 1
            ==> first_down_after(st) == st.down_threshold,
        st.load_stability_threshold <= 1 && st.aggressive_down ==> first_down_after(st) == 1,
{
    lemma_low_run_counts(st, h, loads, k);
}

/// A high sample never steps down and a low sample never steps up; a high
/// sample ends the run of low samples.
pub proof fn lemma_direction_follows_sample(st: FrequencyStrategy, h: Hysteresis, load: i32)
    ensures
        st.is_high(load) ==> st.decision(h, load) != Step::Down && st.after(h, load).down_count
            == 0 && st.after(h, load).down_streak == 0,
        !st.is_high(load) ==> st.decision(h, load) != Step::Up && st.after(h, load).up_streak == 0,
{
}

/// With adaptive sampling off the interval is the fixed one. With it on and
/// bounds in order, the interval stays within the bounds; from an interval
/// within the bounds, a sample that turns the direction never lengthens it
/// and a sample that continues a run never shortens it.
pub proof fn lemma_interval_bounds(st: FrequencyStrategy, h: Hysteresis, load: i32)
    ensures
        !st.adaptive_sampling ==> st.after(h, load).interval == st.sampling_interval,
        st.adaptive_sampling && st.min_sampling_interval <= st.max_sampling_interval
            ==> st.min_sampling_interval <= st.after(h, load).interval <= st.max_sampling_interval,
        st.adaptive_sampling && st.min_sampling_interval <= h.interval <= st.max_sampling_interval
            ==> {
            let turned = if st.is_high(load) {
                h.down_streak > 0
            } else {
                h.up_streak > 0
            };
            let continued = if st.is_high(load) {
                h.up_streak > 0
            } else {
                h.down_streak > 0
            };
            &&& turned ==> st.after(h, load).interval <= h.interval
            &&& !turned && continued ==> st.after(h, load).interval >= h.interval
        },
{
}

} // verus!
