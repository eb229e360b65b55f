//! The order of writes that brings an operating point to the driver.
//!
//! The two driver generations take an operating point through a voltage file
//! and an opp file each, and want the writes in different orders. A script
//! lists the writes of one tick; [`next_step`] follows it along the outcomes
//! of the writes made so far, so that the caller only has to carry out one
//! step at a time and report how it went.

use crate::model::frequency_manager::FrequencyManager;
use crate::utils::text::{decimal, push_decimal};
use vstd::prelude::*;
use vstd::slice::slice_to_vec;
use vstd::string::StringSliceAdditionalSpecFns;

verus! {

/// The two control files of a driver generation.
#[derive(Clone, Copy, PartialEq, Eq, Debug, Structural)]
pub enum ControlFile {
    /// Takes a frequency and voltage pair, or the voltage reset.
    Volt,
    /// Takes a frequency, or a release.
    Opp,
}

/// What is written to a control file.
#[derive(Clone, Copy, PartialEq, Eq, Debug, Structural)]
pub enum Payload {
    /// `0 0`: gives up the fixed voltage.
    VoltReset,
    /// `-1`: releases a pinned operating point.
    OppRelease,
    /// `0`: the older form of the release.
    OppZero,
    /// A frequency alone.
    Freq(i64),
    /// A frequency and a voltage.
    FreqVolt(i64, i64),
}

impl Payload {
    /// The bytes to write.
    pub open spec fn text(self) -> Seq<u8> {
        match self {
            Payload::VoltReset => "0 0".spec_bytes(),
            Payload::OppRelease => "-1".spec_bytes(),
            Payload::OppZero => "0".spec_bytes(),
            Payload::Freq(f) => decimal(f as int),
            Payload::FreqVolt(f, v) => decimal(f as int) + seq![0x20u8] + decimal(v as int),
        }
    }

    /// Whether this presents an operating point to the driver.
    pub open spec fn presents_point(self) -> bool {
        self is Freq || self is FreqVolt
    }

    /// The bytes to write.
    pub fn render(&self) -> (r: Vec<u8>)
        ensures
            r@ == self.text(),
    {
        match self {
            Payload::VoltReset => slice_to_vec("0 0".as_bytes()),
            Payload::OppRelease => slice_to_vec("-1".as_bytes()),
            Payload::OppZero => slice_to_vec("0".as_bytes()),
            Payload::Freq(f) => {
                let mut out: Vec<u8> = Vec::new();
                push_decimal(&mut out, *f);
                proof {
                    assert(out@ =~= decimal(*f as int));
                }
                out
            },
            Payload::FreqVolt(f, v) => {
                let mut out: Vec<u8> = Vec::new();
                push_decimal(&mut out, *f);
                out.push(0x20);
                push_decimal(&mut out, *v);
                proof {
                    assert(out@ =~= decimal(*f as int) + seq![0x20u8] + decimal(*v as int));
                }
                out
            },
        }
    }
}

/// How an operating point is written in one tick.
#[derive(Clone, Copy, PartialEq, Eq, Debug, Structural)]
pub enum WriteMode {
    /// The GPU is idle: everything is released.
    Idle,
    /// The lowest step of the second driver generation is a power-down.
    Dcs,
    /// No voltage is known: only the frequency is given.
    NoVolt,
    /// Frequency and voltage are given.
    Normal,
}

/// One entry of a script.
#[derive(Clone, Copy, PartialEq, Eq, Debug, Structural)]
pub enum Instruction {
    /// A write whose failure ends the script with an error.
    Must(ControlFile, Payload),
    /// Releases a pinned operating point: `-1` to the opp file, and `0` after
    /// it if that failed or wrote nothing. A failure here is passed over.
    Release,
    /// A pause of so many milliseconds.
    Settle(u64),
}

/// How a step that the caller carried out went.
#[derive(Clone, Copy, PartialEq, Eq, Debug, Structural)]
pub enum StepOutcome {
    /// The write failed.
    Failed,
    /// The write went through, with the number of bytes written.
    Wrote(usize),
    /// The pause is over.
    Slept,
}

/// What the caller has to do next.
#[derive(Clone, Copy, PartialEq, Eq, Debug, Structural)]
pub enum WriteStep {
    /// Write the payload to the control file.
    Write(ControlFile, Payload),
    /// Pause for so many milliseconds.
    Sleep(u64),
    /// Nothing is left to do.
    Done,
    /// A write to this control file failed, and the tick ends with an error.
    Failed(ControlFile),
}

/// The mode of a tick, from three conditions in this order: an idle GPU; the
/// power-down at the lowest step of the second driver generation; a voltage
/// of zero.
pub open spec fn select_mode(
    is_idle: bool,
    need_dcs: bool,
    gpuv2: bool,
    index: i64,
    volt: i64,
) -> WriteMode {
    if is_idle {
        WriteMode::Idle
    } else if need_dcs && gpuv2 && index == 0 {
        WriteMode::Dcs
    } else if volt == 0 {
        WriteMode::NoVolt
    } else {
        WriteMode::Normal
    }
}

/// Pause between the release and the new operating point under the second
/// driver generation, in milliseconds.
pub const SETTLE_MILLIS: u64 = 10;

/// The writes of one tick, in order.
pub open spec fn script(mode: WriteMode, gpuv2: bool, freq: i64, volt: i64) -> Seq<Instruction> {
    let reset = Instruction::Must(ControlFile::Volt, Payload::VoltReset);
    let point = Instruction::Must(ControlFile::Volt, Payload::FreqVolt(freq, volt));
    match mode {
        WriteMode::Idle => if gpuv2 {
            seq![reset, Instruction::Release]
        } else {
            seq![reset, Instruction::Must(ControlFile::Opp, Payload::OppZero)]
        },
        WriteMode::Dcs => seq![reset, Instruction::Release],
        WriteMode::NoVolt => seq![reset, Instruction::Must(ControlFile::Opp, Payload::Freq(freq))],
        WriteMode::Normal => if gpuv2 {
            seq![reset, Instruction::Release, Instruction::Settle(SETTLE_MILLIS), point]
        } else {
            seq![Instruction::Must(ControlFile::Opp, Payload::OppZero), point]
        },
    }
}

/// A write went through and wrote something.
pub open spec fn wrote_some(o: StepOutcome) -> bool {
    o matches StepOutcome::Wrote(n) && n > 0
}

/// The step that follows when the instructions of `script` have been carried
/// out as far as `history` tells. The outcomes in `history` are those of the
/// steps handed out so far, oldest first.
pub open spec fn next_step(script: Seq<Instruction>, history: Seq<StepOutcome>) -> WriteStep
    decreases script.len(),
{
    if script.len() == 0 {
        WriteStep::Done
    } else {
        match script.first() {
            Instruction::Must(file, payload) => if history.len() == 0 {
                WriteStep::Write(file, payload)
            } else if history.first() is Failed {
                WriteStep::Failed(file)
            } else {
                next_step(script.drop_first(), history.drop_first())
            },
            Instruction::Release => if history.len() == 0 {
                WriteStep::Write(ControlFile::Opp, Payload::OppRelease)
            } else if wrote_some(history.first()) {
                next_step(script.drop_first(), history.drop_first())
            } else if history.len() == 1 {
                WriteStep::Write(ControlFile::Opp, Payload::OppZero)
            } else {
                next_step(script.drop_first(), history.skip(2))
            },
            Instruction::Settle(millis) => if history.len() == 0 {
                WriteStep::Sleep(millis)
            } else {
                next_step(script.drop_first(), history.drop_first())
            },
        }
    }
}

/// Follows `script` along `history` and returns the step that comes next.
pub fn follow(script: &[Instruction], history: &[StepOutcome]) -> (r: WriteStep)
    ensures
        r == next_step(script@, history@),
{
    let n = script.len();
    let m = history.len();
    let mut i: usize = 0;
    let mut j: usize = 0;
    proof {
        assert(script@.subrange(0, n as int) =~= script@);
        assert(history@.subrange(0, m as int) =~= history@);
    }
    while i < n
        invariant
            n == script@.len(),
            m == history@.len(),
            i <= n,
            j <= m,
            next_step(script@, history@) == next_step(
                script@.subrange(i as int, n as int),
                history@.subrange(j as int, m as int),
            ),
        decreases n - i,
    {
        let ghost s = script@.subrange(i as int, n as int);
        let ghost h = history@.subrange(j as int, m as int);
        proof {
            assert(s.first() == script@[i as int]);
            assert(s.drop_first() =~= script@.subrange(i + 1, n as int));
            if j < m {
                assert(h.first() == history@[j as int]);
                assert(h.drop_first() =~= history@.subrange(j + 1, m as int));
            }
            if j + 1 < m {
                assert(h.skip(2) =~= history@.subrange(j + 2, m as int));
            }
        }
        match script[i] {
            Instruction::Must(file, payload) => {
                if j == m {
                    return WriteStep::Write(file, payload);
                }
                match history[j] {
                    StepOutcome::Failed => {
                        return WriteStep::Failed(file);
                    },
                    _ => {},
                }
                j += 1;
            },
            Instruction::Release => {
                if j == m {
                    return WriteStep::Write(ControlFile::Opp, Payload::OppRelease);
                }
                let released = match history[j] {
                    StepOutcome::Wrote(count) => count > 0,
                    _ => false,
                };
                if released {
                    j += 1;
                } else if j + 1 == m {
                    return WriteStep::Write(ControlFile::Opp, Payload::OppZero);
                } else {
                    j += 2;
                }
            },
            Instruction::Settle(millis) => {
                if j == m {
                    return WriteStep::Sleep(millis);
                }
                j += 1;
            },
        }
        i += 1;
    }
    WriteStep::Done
}

impl FrequencyManager {
    /// The mode in which the current operating point is written.
    pub fn write_mode(&self, need_dcs: bool, is_idle: bool) -> (r: WriteMode)
        ensures
            r == select_mode(is_idle, need_dcs, self.gpuv2, self.cur_freq_idx, self.cur_volt),
    {
        if is_idle {
            WriteMode::Idle
        } else if need_dcs && self.gpuv2 && self.cur_freq_idx == 0 {
            WriteMode::Dcs
        } else if self.cur_volt == 0 {
            WriteMode::NoVolt
        } else {
            WriteMode::Normal
        }
    }

    /// The writes for an idle GPU: the voltage is reset and the operating
    /// point released. No frequency is written.
    pub fn write_idle_mode(&self) -> (r: Vec<Instruction>)
        ensures
            r@ == script(WriteMode::Idle, self.gpuv2, self.frequency_in_use(), self.cur_volt),
    {
        let mut r: Vec<Instruction> = Vec::new();
        r.push(Instruction::Must(ControlFile::Volt, Payload::VoltReset));
        if self.gpuv2 {
            r.push(Instruction::Release);
        } else {
            r.push(Instruction::Must(ControlFile::Opp, Payload::OppZero));
        }
        proof {
            assert(r@ =~= script(
                WriteMode::Idle,
                self.gpuv2,
                self.frequency_in_use(),
                self.cur_volt,
            ));
        }
        r
    }

    /// The writes for the power-down at the lowest step.
    pub fn write_dcs_mode(&self) -> (r: Vec<Instruction>)
        ensures
            r@ == script(WriteMode::Dcs, self.gpuv2, self.frequency_in_use(), self.cur_volt),
    {
        let mut r: Vec<Instruction> = Vec::new();
        r.push(Instruction::Must(ControlFile::Volt, Payload::VoltReset));
        r.push(Instruction::Release);
        proof {
            assert(r@ =~= script(
                WriteMode::Dcs,
                self.gpuv2,
                self.frequency_in_use(),
                self.cur_volt,
            ));
        }
        r
    }

    /// The writes for an operating point without a voltage.
    pub fn write_no_volt_mode(&self) -> (r: Vec<Instruction>)
        ensures
            r@ == script(WriteMode::NoVolt, self.gpuv2, self.frequency_in_use(), self.cur_volt),
    {
        let freq = self.freq_to_use();
        let mut r: Vec<Instruction> = Vec::new();
        r.push(Instruction::Must(ControlFile::Volt, Payload::VoltReset));
        r.push(Instruction::Must(ControlFile::Opp, Payload::Freq(freq)));
        proof {
            assert(r@ =~= script(
                WriteMode::NoVolt,
                self.gpuv2,
                self.frequency_in_use(),
                self.cur_volt,
            ));
        }
        r
    }

    /// The writes for an operating point with its voltage. Under the second
    /// driver generation the point that is pinned is released first, and a
    /// short pause lets the driver settle before the new point is written.
    pub fn write_normal_mode(&self) -> (r: Vec<Instruction>)
        ensures
            r@ == script(WriteMode::Normal, self.gpuv2, self.frequency_in_use(), self.cur_volt),
    {
        let freq = self.freq_to_use();
        let point = Instruction::Must(ControlFile::Volt, Payload::FreqVolt(freq, self.cur_volt));
        let mut r: Vec<Instruction> = Vec::new();
        if self.gpuv2 {
            r.push(Instruction::Must(ControlFile::Volt, Payload::VoltReset));
            r.push(Instruction::Release);
            r.push(Instruction::Settle(SETTLE_MILLIS));
            r.push(point);
        } else {
            r.push(Instruction::Must(ControlFile::Opp, Payload::OppZero));
            r.push(point);
        }
        proof {
            assert(r@ =~= script(
                WriteMode::Normal,
                self.gpuv2,
                self.frequency_in_use(),
                self.cur_volt,
            ));
        }
        r
    }

    /// The next step in writing the current operating point to the driver.
    ///
    /// `files_present` says whether both control files of the driver
    /// generation in use exist; if one is missing the tick writes nothing.
    /// `history` holds the outcomes of the steps that this tick has carried
    /// out so far, oldest first. The caller starts with an empty history,
    /// carries out each step that is handed out, appends its outcome and
    /// asks again, until the answer is `Done` or `Failed`.
    pub fn write_freq(
        &self,
        need_dcs: bool,
        is_idle: bool,
        files_present: bool,
        history: &[StepOutcome],
    ) -> (r: WriteStep)
        ensures
            !files_present ==> r == WriteStep::Done,
            files_present ==> r == next_step(
                script(
                    select_mode(is_idle, need_dcs, self.gpuv2, self.cur_freq_idx, self.cur_volt),
                    self.gpuv2,
                    self.frequency_in_use(),
                    self.cur_volt,
                ),
                history@,
            ),
    {
        if !files_present {
            return WriteStep::Done;
        }
        let script = match self.write_mode(need_dcs, is_idle) {
            WriteMode::Idle => self.write_idle_mode(),
            WriteMode::Dcs => self.write_dcs_mode(),
            WriteMode::NoVolt => self.write_no_volt_mode(),
            WriteMode::Normal => self.write_normal_mode(),
        };
        follow(script.as_slice(), history)
    }
}

/// For an idle GPU no operating point is ever presented to the driver,
/// whatever the outcomes of the writes are: every write is the voltage
/// reset or a release.
pub proof fn lemma_idle_presents_no_point(
    gpuv2: bool,
    freq: i64,
    volt: i64,
    history: Seq<StepOutcome>,
)
    ensures
        next_step(script(WriteMode::Idle, gpuv2, freq, volt), history) matches WriteStep::Write(
            _,
            payload,
        ) ==> !payload.presents_point(),
{
    reveal_with_fuel(next_step, 4);
}

/// Under the second driver generation an idle GPU has the voltage reset
/// first and the operating point released next; the older form of the
/// release follows exactly when the first form failed or wrote nothing, and
/// its own outcome is passed over.
pub proof fn lemma_idle_release_order(
    freq: i64,
    volt: i64,
    first: StepOutcome,
    second: StepOutcome,
    third: StepOutcome,
)
    requires
        !(first is Failed),
    ensures
        next_step(script(WriteMode::Idle, true, freq, volt), seq![]) == WriteStep::Write(
            ControlFile::Volt,
            Payload::VoltReset,
        ),
        next_step(script(WriteMode::Idle, true, freq, volt), seq![StepOutcome::Failed])
            == WriteStep::Failed(ControlFile::Volt),
        next_step(script(WriteMode::Idle, true, freq, volt), seq![first]) == WriteStep::Write(
            ControlFile::Opp,
            Payload::OppRelease,
        ),
        next_step(script(WriteMode::Idle, true, freq, volt), seq![first, second]) == (if wrote_some(
            second,
        ) {
            WriteStep::Done
        } else {
            WriteStep::Write(ControlFile::Opp, Payload::OppZero)
        }),
        !wrote_some(second) ==> next_step(
            script(WriteMode::Idle, true, freq, volt),
            seq![first, second, third],
        ) == WriteStep::Done,
{
    reveal_with_fuel(next_step, 4);
    let sc = script(WriteMode::Idle, true, freq, volt);
    assert(sc.drop_first() =~= seq![Instruction::Release]);
    assert(sc.drop_first().drop_first() =~= Seq::<Instruction>::empty());
    assert(seq![first].drop_first() =~= Seq::<StepOutcome>::empty());
    assert(seq![first, second].drop_first() =~= seq![second]);
    assert(seq![first, second, third].drop_first() =~= seq![second, third]);
}

/// A step that writes is a write of the script, or belongs to a release
/// that the script holds.
pub proof fn lemma_writes_come_from_script(script: Seq<Instruction>, history: Seq<StepOutcome>)
    ensures
        next_step(script, history) matches WriteStep::Write(file, payload) ==> script.contains(
            Instruction::Must(file, payload),
        ) || (script.contains(Instruction::Release) && file == ControlFile::Opp && (payload
            == Payload::OppRelease || payload == Payload::OppZero)),
    decreases script.len(),
{
    if script.len() > 0 {
        assert(script[0] == script.first());
        let rest = script.drop_first();
        let tail = if script.first() is Release && history.len() >= 2 && !wrote_some(
            history.first(),
        ) {
            history.skip(2)
        } else {
            history.drop_first()
        };
        lemma_writes_come_from_script(rest, tail);
        assert forall|x: Instruction| rest.contains(x) implies script.contains(x) by {
            let i = choose|i: int| 0 <= i < rest.len() && rest[i] == x;
            assert(script[i + 1] == x);
        }
    }
}

/// A tick comes to an end: once the history holds two outcomes for every
/// instruction of the script, nothing is left to write or to wait for.
pub proof fn lemma_script_ends(script: Seq<Instruction>, history: Seq<StepOutcome>)
    requires
        history.len() >= 2 * script.len(),
    ensures
        next_step(script, history) == WriteStep::Done || next_step(script, history) is Failed,
    decreases script.len(),
{
    if script.len() > 0 {
        let rest = script.drop_first();
        lemma_script_ends(rest, history.drop_first());
        lemma_script_ends(rest, history.skip(2));
    }
}

} // verus!
