//! The state of one GPU and the governor's tick.

use crate::model::actuation::{next_step, script, select_mode, StepOutcome, WriteStep};
use crate::model::frequency_manager::{clamp_index, entry_at, FrequencyManager};
use crate::model::frequency_strategy::{
    FrequencyStrategy, Hysteresis, Step, SAMPLING_INTERVAL_120HZ,
};
use vstd::prelude::*;

verus! {

/// One GPU: its frequency table and operating point, the governor's
/// parameters and what the governor remembers between samples.
pub struct Gpu {
    /// Frequency table and current operating point.
    pub frequency: FrequencyManager,
    /// Parameters of the governor.
    pub strategy: FrequencyStrategy,
    /// Runs of samples and the polling interval in use.
    pub hysteresis: Hysteresis,
    /// Whether the precise counters are available as a load source.
    pub precise: bool,
    /// Whether the lowest step is a power-down.
    pub dcs_enabled: bool,
}

/// The index after a step along a table of `len` entries: the index is
/// pulled into the table, moved by one in the direction asked for, and
/// pulled into the table again. An index at the end of the `i64` range
/// cannot move up.
pub open spec fn stepped_index(len: nat, idx: int, step: Step) -> int {
    let at = clamp_index(len, idx);
    match step {
        Step::Up => if at < i64::MAX {
            clamp_index(len, at + 1)
        } else {
            at
        },
        Step::Down => clamp_index(len, at - 1),
        Step::Hold => at,
    }
}

impl Gpu {
    /// A GPU with an empty table at index 0 and zero voltage, with the
    /// default strategy and nothing sampled yet.
    pub fn new() -> (r: Self)
        ensures
            r.frequency.config_list@ == Seq::<i64>::empty(),
            r.frequency.v2_supported_freqs@ == Seq::<i64>::empty(),
            r.frequency.freq_volt@ == Map::<i64, i64>::empty(),
            r.frequency.freq_dram@ == Map::<i64, i64>::empty(),
            r.frequency.def_volt@ == Map::<i64, i64>::empty(),
            r.frequency.cur_freq_idx == 0,
            r.frequency.cur_freq == 0,
            r.frequency.cur_volt == 0,
            !r.frequency.gpuv2,
            !r.precise,
            !r.dcs_enabled,
            r.strategy == (FrequencyStrategy {
                margin: 0,
                down_threshold: 1,
                sampling_interval: SAMPLING_INTERVAL_120HZ,
                aggressive_down: true,
                load_stability_threshold: 1,
                adaptive_sampling: false,
                min_sampling_interval: SAMPLING_INTERVAL_120HZ,
                max_sampling_interval: SAMPLING_INTERVAL_120HZ,
            }),
            r.hysteresis == (Hysteresis {
                up_streak: 0,
                down_streak: 0,
                down_count: 0,
                interval: SAMPLING_INTERVAL_120HZ,
            }),
    {
        Gpu {
            frequency: FrequencyManager::new(),
            strategy: FrequencyStrategy::new(),
            hysteresis: Hysteresis::new(SAMPLING_INTERVAL_120HZ),
            precise: false,
            dcs_enabled: false,
        }
    }

    /// One tick of the governor after the load was sampled: the runs are
    /// brought up to date, the index moves by one where the sample and the
    /// runs ask for it, and frequency and voltage follow the index. Returns
    /// the time to wait before the next sample, in microseconds.
    pub fn tick(&mut self, load: i32) -> (r: u64)
        ensures
            final(self).hysteresis == old(self).strategy.after(old(self).hysteresis, load),
            final(self).frequency.cur_freq_idx == stepped_index(
                old(self).frequency.config_list@.len(),
                old(self).frequency.cur_freq_idx as int,
                old(self).strategy.decision(old(self).hysteresis, load),
            ),
            final(self).frequency.cur_freq == entry_at(
                old(self).frequency.config_list@,
                final(self).frequency.cur_freq_idx as int,
            ),
            final(self).frequency.cur_volt == (FrequencyManager {
                cur_freq: final(self).frequency.cur_freq,
                ..old(self).frequency
            }).resolved_voltage(),
            final(self).frequency == (FrequencyManager {
                cur_freq_idx: final(self).frequency.cur_freq_idx,
                cur_freq: final(self).frequency.cur_freq,
                cur_volt: final(self).frequency.cur_volt,
                ..old(self).frequency
            }),
            final(self).strategy == old(self).strategy,
            final(self).precise == old(self).precise,
            final(self).dcs_enabled == old(self).dcs_enabled,
            r == final(self).hysteresis.interval,
            old(self).frequency.well_formed() ==> final(self).frequency.well_formed(),
            0 <= final(self).frequency.cur_freq_idx,
            old(self).frequency.config_list@.len() > 0 ==> final(self).frequency.cur_freq_idx < old(
                self,
            ).frequency.config_list@.len(),
    {
        let step = self.strategy.decide(&mut self.hysteresis, load);
        let at = self.frequency.unify_id(self.frequency.cur_freq_idx);
        let target = match step {
            Step::Up => if at < i64::MAX {
                self.frequency.unify_id(at + 1)
            } else {
                at
            },
            Step::Down => self.frequency.unify_id(at - 1),
            Step::Hold => at,
        };
        self.frequency.cur_freq_idx = target;
        self.frequency.cur_freq = self.frequency.get_freq_by_index(target);
        self.frequency.gen_cur_volt();
        self.hysteresis.interval
    }

    /// The next step in writing the current operating point to the driver;
    /// see [`FrequencyManager::write_freq`]. The power-down at the lowest
    /// step is asked for when it is enabled for this GPU.
    pub fn actuate(&self, is_idle: bool, files_present: bool, history: &[StepOutcome]) -> (r:
        WriteStep)
        ensures
            !files_present ==> r == WriteStep::Done,
            files_present ==> r == next_step(
                script(
                    select_mode(
                        is_idle,
                        self.dcs_enabled,
                        self.frequency.gpuv2,
                        self.frequency.cur_freq_idx,
                        self.frequency.cur_volt,
                    ),
                    self.frequency.gpuv2,
                    self.frequency.frequency_in_use(),
                    self.frequency.cur_volt,
                ),
                history@,
            ),
    {
        self.frequency.write_freq(self.dcs_enabled, is_idle, files_present, history)
    }
}

/// Sets the strategy that the governor starts with: no margin, a step down
/// on every low sample, no debouncing, and a fixed interval of 120 samples
/// per second.
pub fn configure_gpu_strategy(gpu: &mut Gpu)
    ensures
        final(gpu).strategy == (FrequencyStrategy {
            margin: 0,
            down_threshold: 1,
            sampling_interval: SAMPLING_INTERVAL_120HZ,
            aggressive_down: true,
            load_stability_threshold: 1,
            adaptive_sampling: false,
            min_sampling_interval: SAMPLING_INTERVAL_120HZ,
            max_sampling_interval: SAMPLING_INTERVAL_120HZ,
        }),
        final(gpu).frequency == old(gpu).frequency,
        final(gpu).hysteresis == old(gpu).hysteresis,
        final(gpu).precise == old(gpu).precise,
        final(gpu).dcs_enabled == old(gpu).dcs_enabled,
{
    gpu.strategy.configure_strategy(0, 1, SAMPLING_INTERVAL_120HZ, true);
    gpu.strategy.set_load_stability_threshold(1);
    gpu.strategy.set_adaptive_sampling(false, SAMPLING_INTERVAL_120HZ, SAMPLING_INTERVAL_120HZ);
}

/// Inside the table a step moves the index by one and stops at the ends;
/// holding leaves it where it is.
pub proof fn lemma_step_moves_index_by_one(len: nat, idx: int, step: Step)
    requires
        0 <= idx < len,
        len <= i64::MAX,
    ensures
        step == Step::Hold ==> stepped_index(len, idx, step) == idx,
        step == Step::Down ==> stepped_index(len, idx, step) == (if idx > 0 {
            idx - 1
        } else {
            0
        }),
        step == Step::Up ==> stepped_index(len, idx, step) == (if idx + 1 < len {
            idx + 1
        } else {
            idx
        }),
{
}

} // verus!
