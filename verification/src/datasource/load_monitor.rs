//! The chain of load sources and the reading of the current frequency.
//!
//! Each source is a kernel file with a format of its own. The functions
//! named after the sources turn the bytes of such a file into a load
//! percentage; [`LoadSampler`] keeps which files are still usable and walks
//! the sources in order of preference.

use crate::datasource::node::{
    lemma_ordinal_injective, FileView, NodeFiles, NodePath, PathStatus, ReadOutcome, NODE_COUNT,
};
use crate::utils::text::{
    after_first, after_first_line, before_first, first_line, i32_of, i64_of, line_at, matches_at,
    nth_line, nth_token, occurs_at, parse_i32, parse_i64, part_before, rest_after, split_line,
    token, trim, trimmed,
};
use vstd::prelude::*;
use vstd::string::StringSliceAdditionalSpecFns;

verus! {

/// Busy, idle and protected-mode cycle counters of the precise source.
#[derive(Clone, Copy, Debug)]
pub struct Counters {
    pub busy: i64,
    pub idle: i64,
    pub protm: i64,
}

/// The load that corresponds to an idle percentage, `100 - idle`, when an
/// `i32` can hold it.
pub open spec fn complement(idle: Option<i32>) -> Option<i32> {
    match idle {
        Some(v) => if 100 - v <= i32::MAX {
            Some((100 - v) as i32)
        } else {
            None
        },
        None => None,
    }
}

/// The token with number `n` of `s` read as an integer.
pub open spec fn token_i32(s: Seq<u8>, n: nat) -> Option<i32> {
    match nth_token(s, n) {
        Some(t) => i32_of(t),
        None => None,
    }
}

/// The token with number `n` of `s` read as an integer.
pub open spec fn token_i64(s: Seq<u8>, n: nat) -> Option<i64> {
    match nth_token(s, n) {
        Some(t) => i64_of(t),
        None => None,
    }
}

/// The integer that follows the first occurrence of `key` in `s`, with
/// whitespace around it allowed up to the end of `s`.
pub open spec fn keyed_i32(s: Seq<u8>, key: Seq<u8>) -> Option<i32> {
    match after_first(s, key) {
        Some(rest) => i32_of(trimmed(rest)),
        None => None,
    }
}

/// The integer that follows the first occurrence of `key` in `s`, with
/// whitespace around it allowed up to the end of `s`.
pub open spec fn keyed_i64(s: Seq<u8>, key: Seq<u8>) -> Option<i64> {
    match after_first(s, key) {
        Some(rest) => i64_of(trimmed(rest)),
        None => None,
    }
}

/// Reading of the module-level load file: one integer, already a load.
pub open spec fn module_load_reading(s: Seq<u8>) -> Option<i32> {
    i32_of(trimmed(s))
}

/// Reading of the module-level idle file: one integer, the idle percentage.
pub open spec fn module_idle_reading(s: Seq<u8>) -> Option<i32> {
    complement(i32_of(trimmed(s)))
}

/// Reading of the kernel load file: the third token, already a load.
pub open spec fn kernel_load_reading(s: Seq<u8>) -> Option<i32> {
    token_i32(s, 2)
}

/// Reading of a kernel idle file: the third token, the idle percentage.
pub open spec fn kernel_idle_reading(s: Seq<u8>) -> Option<i32> {
    complement(token_i32(s, 2))
}

/// Reading of the Mali file: the integer after the first `=`.
pub open spec fn mali_reading(s: Seq<u8>) -> Option<i32> {
    keyed_i32(s, "=".spec_bytes())
}

/// Reading of the MTK file: the integer after the first `ACTIVE=`.
pub open spec fn mtk_reading(s: Seq<u8>) -> Option<i32> {
    keyed_i32(s, "ACTIVE=".spec_bytes())
}

/// Reading of the driver's dump: the integer after `gpu_loading = ` on the
/// first line that holds one.
pub open spec fn gpufreq_reading(s: Seq<u8>) -> Option<i32>
    decreases s.len(),
{
    if s.len() == 0 {
        None
    } else {
        match keyed_i32(first_line(s), "gpu_loading = ".spec_bytes()) {
            Some(v) => Some(v),
            None => gpufreq_reading(after_first_line(s)),
        }
    }
}

/// The three counters on the second line of the precise file.
pub open spec fn counters_of(s: Seq<u8>) -> Option<Counters> {
    match nth_line(s, 1) {
        Some(l) => match (token_i64(l, 0), token_i64(l, 1), token_i64(l, 2)) {
            (Some(busy), Some(idle), Some(protm)) => Some(Counters { busy, idle, protm }),
            _ => None,
        },
        None => None,
    }
}

/// Load between two readings of the counters: the share of busy and
/// protected-mode cycles in all cycles since the earlier reading, in percent
/// and rounded down. A negative sum of busy and protected-mode cycles counts
/// as zero. No load when the total is not positive or the percentage is more
/// than an `i32` holds.
pub open spec fn precise_load(prev: Counters, cur: Counters) -> Option<i32> {
    let d_busy = cur.busy - prev.busy;
    let d_idle = cur.idle - prev.idle;
    let d_protm = cur.protm - prev.protm;
    let total = d_busy + d_idle + d_protm;
    let active = if d_busy + d_protm < 0 {
        0
    } else {
        d_busy + d_protm
    };
    if total <= 0 {
        None
    } else if active * 100 / total > i32::MAX {
        None
    } else {
        Some((active * 100 / total) as i32)
    }
}

/// `100 - idle`, when the idle percentage was readable and the result fits.
fn load_from_idle(idle: Option<i32>) -> (r: Option<i32>)
    ensures
        r == complement(idle),
{
    match idle {
        Some(v) => {
            let load: i64 = 100 - v as i64;
            if load <= i32::MAX as i64 {
                Some(load as i32)
            } else {
                None
            }
        },
        None => None,
    }
}

/// The token with number `n` of `content` read as an `i32`.
fn token_as_i32(content: &[u8], n: usize) -> (r: Option<i32>)
    ensures
        r == token_i32(content@, n as nat),
{
    match token(content, n) {
        Some(t) => parse_i32(t),
        None => None,
    }
}

/// The token with number `n` of `content` read as an `i64`.
fn token_as_i64(content: &[u8], n: usize) -> (r: Option<i64>)
    ensures
        r == token_i64(content@, n as nat),
{
    match token(content, n) {
        Some(t) => parse_i64(t),
        None => None,
    }
}

/// The integer after the first occurrence of `key` in `content`.
fn keyed_as_i32(content: &[u8], key: &[u8]) -> (r: Option<i32>)
    ensures
        r == keyed_i32(content@, key@),
{
    match rest_after(content, key) {
        Some(rest) => parse_i32(trim(rest)),
        None => None,
    }
}

/// The integer after the first occurrence of `key` in `content`.
fn keyed_as_i64(content: &[u8], key: &[u8]) -> (r: Option<i64>)
    ensures
        r == keyed_i64(content@, key@),
{
    match rest_after(content, key) {
        Some(rest) => parse_i64(trim(rest)),
        None => None,
    }
}

/// Load from the module-level load file, which holds one integer.
pub fn module_ged_load(content: &[u8]) -> (r: Option<i32>)
    ensures
        r == module_load_reading(content@),
{
    parse_i32(trim(content))
}

/// Load from the module-level idle file, which holds the idle percentage.
pub fn module_ged_idle(content: &[u8]) -> (r: Option<i32>)
    ensures
        r == module_idle_reading(content@),
{
    load_from_idle(parse_i32(trim(content)))
}

/// Load from the kernel load file, whose third token is the load.
pub fn kernel_ged_load(content: &[u8]) -> (r: Option<i32>)
    ensures
        r == kernel_load_reading(content@),
{
    token_as_i32(content, 2)
}

/// Load from the kernel idle file, whose third token is the idle percentage.
pub fn kernel_debug_ged_load(content: &[u8]) -> (r: Option<i32>)
    ensures
        r == kernel_idle_reading(content@),
{
    load_from_idle(token_as_i32(content, 2))
}

/// Load from the kernel debug idle file, whose third token is the idle
/// percentage.
pub fn kernel_d_ged_load(content: &[u8]) -> (r: Option<i32>)
    ensures
        r == kernel_idle_reading(content@),
{
    load_from_idle(token_as_i32(content, 2))
}

/// Load from the Mali file, which holds `key=value`.
pub fn mali_load(content: &[u8]) -> (r: Option<i32>)
    ensures
        r == mali_reading(content@),
{
    keyed_as_i32(content, "=".as_bytes())
}

/// Load from the MTK file, which holds `ACTIVE=value`.
pub fn mtk_load(content: &[u8]) -> (r: Option<i32>)
    ensures
        r == mtk_reading(content@),
{
    keyed_as_i32(content, "ACTIVE=".as_bytes())
}

/// Load from the driver's dump: the first line with `gpu_loading = value`
/// whose value is an integer decides.
pub fn gpufreq_load(content: &[u8]) -> (r: Option<i32>)
    ensures
        r == gpufreq_reading(content@),
{
    let key = "gpu_loading = ".as_bytes();
    let mut rest = content;
    while rest.len() > 0
        invariant
            key@ == "gpu_loading = ".spec_bytes(),
            gpufreq_reading(content@) == gpufreq_reading(rest@),
        decreases rest@.len(),
    {
        let (first, next) = split_line(rest);
        match keyed_as_i32(first, key) {
            Some(v) => {
                return Some(v);
            },
            None => {},
        }
        rest = next;
    }
    None
}

/// Load from the precise counters: reads the second line of `content`,
/// remembers its counters in `prev` and relates them to the ones remembered
/// before. Content without three counters there leaves `prev` as it is.
pub fn debug_dvfs_load_func(prev: &mut Counters, content: &[u8]) -> (r: Option<i32>)
    ensures
        counters_of(content@) matches Some(cur) ==> *final(prev) == cur && r == precise_load(
            *old(prev),
            cur,
        ),
        counters_of(content@).is_none() ==> *final(prev) == *old(prev) && r.is_none(),
{
    let second = match line_at(content, 1) {
        Some(l) => l,
        None => {
            return None;
        },
    };
    let busy = token_as_i64(second, 0);
    let idle = token_as_i64(second, 1);
    let protm = token_as_i64(second, 2);
    match (busy, idle, protm) {
        (Some(busy), Some(idle), Some(protm)) => {
            let d_busy: i128 = busy as i128 - prev.busy as i128;
            let d_idle: i128 = idle as i128 - prev.idle as i128;
            let d_protm: i128 = protm as i128 - prev.protm as i128;
            *prev = Counters { busy, idle, protm };
            let total: i128 = d_busy + d_idle + d_protm;
            if total <= 0 {
                return None;
            }
            let active: i128 = if d_busy + d_protm < 0 {
                0
            } else {
                d_busy + d_protm
            };
            let load: u128 = (active * 100) as u128 / total as u128;
            if load > 0x7fff_ffff {
                None
            } else {
                Some(load as i32)
            }
        },
        _ => None,
    }
}

/// The load sources, from the most preferred to the least.
#[derive(Clone, Copy, PartialEq, Eq, Debug, Structural)]
pub enum Source {
    /// Busy, idle and protected-mode counters, at one of two locations.
    Precise,
    /// The `gpu_loading` line of the driver's dump.
    GpuFreq,
    /// The MTK proc file.
    Mtk,
    /// The Mali proc file.
    Mali,
    /// The kernel debug file with the idle percentage.
    KernelDebugIdle,
    /// The kernel file with the idle percentage.
    KernelIdle,
    /// The kernel file with the load.
    KernelLoad,
    /// The module parameter with the idle percentage.
    ModuleIdle,
    /// The module parameter with the load.
    ModuleLoad,
}

/// Number of load sources.
pub const SOURCE_COUNT: usize = 9;

impl Source {
    /// The source at position `k` of the chain. Positions past the end name
    /// the last source.
    pub open spec fn in_order(k: int) -> Source {
        if k <= 0 {
            Source::Precise
        } else if k == 1 {
            Source::GpuFreq
        } else if k == 2 {
            Source::Mtk
        } else if k == 3 {
            Source::Mali
        } else if k == 4 {
            Source::KernelDebugIdle
        } else if k == 5 {
            Source::KernelIdle
        } else if k == 6 {
            Source::KernelLoad
        } else if k == 7 {
            Source::ModuleIdle
        } else {
            Source::ModuleLoad
        }
    }

    /// Whether a load of exactly zero from this source counts as a reading.
    /// Only the two least preferred sources are believed when they say zero.
    pub open spec fn accepts_zero(self) -> bool {
        self == Source::ModuleIdle || self == Source::ModuleLoad
    }

    /// The file to read for this source under the status `usable`: the
    /// source's file if it is usable; for the precise counters the current
    /// location, or else the older one.
    pub open spec fn path_under(self, usable: Seq<bool>) -> Option<NodePath> {
        let first = match self {
            Source::Precise => NodePath::DebugDvfsLoad,
            Source::GpuFreq => NodePath::GpuFreqLoad,
            Source::Mtk => NodePath::ProcMtkLoad,
            Source::Mali => NodePath::ProcMaliLoad,
            Source::KernelDebugIdle => NodePath::KernelDebugLoad,
            Source::KernelIdle => NodePath::KernelDLoad,
            Source::KernelLoad => NodePath::KernelLoad,
            Source::ModuleIdle => NodePath::ModuleIdle,
            Source::ModuleLoad => NodePath::ModuleLoad,
        };
        if usable[first.ordinal()] {
            Some(first)
        } else if self == Source::Precise && usable[NodePath::DebugDvfsLoadOld.ordinal()] {
            Some(NodePath::DebugDvfsLoadOld)
        } else {
            None
        }
    }

    /// What this source makes of the bytes of its file: the counters to
    /// remember from now on, and the load if the bytes hold one.
    pub open spec fn reading(self, prev: Counters, content: Seq<u8>) -> (Counters, Option<i32>) {
        match self {
            Source::Precise => match counters_of(content) {
                Some(cur) => (cur, precise_load(prev, cur)),
                None => (prev, None),
            },
            Source::GpuFreq => (prev, gpufreq_reading(content)),
            Source::Mtk => (prev, mtk_reading(content)),
            Source::Mali => (prev, mali_reading(content)),
            Source::KernelDebugIdle => (prev, kernel_idle_reading(content)),
            Source::KernelIdle => (prev, kernel_idle_reading(content)),
            Source::KernelLoad => (prev, kernel_load_reading(content)),
            Source::ModuleIdle => (prev, module_idle_reading(content)),
            Source::ModuleLoad => (prev, module_load_reading(content)),
        }
    }

    /// The load that is accepted from this source: the one its file holds,
    /// unless that is zero and the source is not believed on zero.
    pub open spec fn accepted(self, load: Option<i32>) -> Option<i32> {
        match load {
            Some(v) => if v != 0 || self.accepts_zero() {
                Some(v)
            } else {
                None
            },
            None => None,
        }
    }

    /// The source at position `k` of the chain.
    pub fn at(k: usize) -> (r: Source)
        ensures
            r == Source::in_order(k as int),
    {
        if k == 0 {
            Source::Precise
        } else if k == 1 {
            Source::GpuFreq
        } else if k == 2 {
            Source::Mtk
        } else if k == 3 {
            Source::Mali
        } else if k == 4 {
            Source::KernelDebugIdle
        } else if k == 5 {
            Source::KernelIdle
        } else if k == 6 {
            Source::KernelLoad
        } else if k == 7 {
            Source::ModuleIdle
        } else {
            Source::ModuleLoad
        }
    }
}

/// What the sampler knows between ticks, as a mathematical value.
pub struct SamplerModel {
    /// For each file, by position, whether it is still taken as usable.
    pub usable: Seq<bool>,
    /// The counters that the precise source saw last.
    pub prev: Counters,
}

/// Where sampling stands after the files read so far.
#[derive(Clone, Copy, PartialEq, Eq, Debug, Structural)]
pub enum Sample {
    /// This file has to be read before sampling can go on.
    Need(NodePath),
    /// The load in percent, and the source that gave it.
    Load(i32, Source),
    /// No usable source gave a load.
    NoReading,
}

/// The sampler after the source `src` was given what reading its file gave,
/// and the load that it accepted. A failed read disables the file for good;
/// content that holds no load, or a zero that is not believed, changes
/// nothing but the remembered counters.
pub open spec fn fed(m: SamplerModel, src: Source, outcome: FileView) -> (
    SamplerModel,
    Option<i32>,
) {
    match src.path_under(m.usable) {
        None => (m, None),
        Some(p) => match outcome {
            FileView::Failed => (
                SamplerModel { usable: m.usable.update(p.ordinal(), false), prev: m.prev },
                None,
            ),
            FileView::Content(bytes) => (
                SamplerModel { usable: m.usable, prev: src.reading(m.prev, bytes).0 },
                src.accepted(src.reading(m.prev, bytes).1),
            ),
        },
    }
}

/// Walks the chain from position `from` on: each source whose file is usable
/// is fed that file, and the first load that is accepted ends the walk. A
/// file that has not been read yet stops it.
pub open spec fn walk(m: SamplerModel, files: Map<NodePath, FileView>, from: nat) -> (
    SamplerModel,
    Sample,
)
    decreases SOURCE_COUNT - from,
{
    if from >= SOURCE_COUNT {
        (m, Sample::NoReading)
    } else {
        let src = Source::in_order(from as int);
        match src.path_under(m.usable) {
            None => walk(m, files, from + 1),
            Some(p) => if !files.contains_key(p) {
                (m, Sample::Need(p))
            } else {
                let next = fed(m, src, files[p]);
                match next.1 {
                    Some(v) => (next.0, Sample::Load(v, src)),
                    None => walk(next.0, files, from + 1),
                }
            },
        }
    }
}

/// One tick of sampling: the walk over the whole chain. When a file is still
/// to be read, the sampler stays as it was.
pub open spec fn sampled(m: SamplerModel, files: Map<NodePath, FileView>) -> (
    SamplerModel,
    Sample,
) {
    let w = walk(m, files, 0);
    if w.1 is Need {
        (m, w.1)
    } else {
        w
    }
}

/// Keeps which kernel files are usable and the counters of the precise source.
#[derive(Clone, Copy, Debug)]
pub struct LoadSampler {
    pub status: PathStatus,
    pub prev: Counters,
}

impl View for LoadSampler {
    type V = SamplerModel;

    open spec fn view(&self) -> SamplerModel {
        SamplerModel { usable: self.status@, prev: self.prev }
    }
}

impl LoadSampler {
    /// The file to read for `src`, if one of its files is still usable.
    pub fn path_of(&self, src: Source) -> (r: Option<NodePath>)
        ensures
            r == src.path_under(self@.usable),
    {
        let first = match src {
            Source::Precise => NodePath::DebugDvfsLoad,
            Source::GpuFreq => NodePath::GpuFreqLoad,
            Source::Mtk => NodePath::ProcMtkLoad,
            Source::Mali => NodePath::ProcMaliLoad,
            Source::KernelDebugIdle => NodePath::KernelDebugLoad,
            Source::KernelIdle => NodePath::KernelDLoad,
            Source::KernelLoad => NodePath::KernelLoad,
            Source::ModuleIdle => NodePath::ModuleIdle,
            Source::ModuleLoad => NodePath::ModuleLoad,
        };
        if self.status.is_enabled(first) {
            Some(first)
        } else if src == Source::Precise && self.status.is_enabled(NodePath::DebugDvfsLoadOld) {
            Some(NodePath::DebugDvfsLoadOld)
        } else {
            None
        }
    }

    /// Gives the source `src` what reading its file gave, and returns the
    /// load if one is accepted. A failed read disables the file for good. A
    /// source without a usable file takes nothing in.
    pub fn feed(&mut self, src: Source, outcome: &ReadOutcome) -> (r: Option<i32>)
        ensures
            final(self)@ == fed(old(self)@, src, outcome@).0,
            r == fed(old(self)@, src, outcome@).1,
    {
        let p = match self.path_of(src) {
            Some(p) => p,
            None => {
                return None;
            },
        };
        let bytes = match outcome {
            ReadOutcome::Content(bytes) => bytes.as_slice(),
            ReadOutcome::Failed => {
                self.status.set(p, false);
                return None;
            },
        };
        let load = match src {
            Source::Precise => debug_dvfs_load_func(&mut self.prev, bytes),
            Source::GpuFreq => gpufreq_load(bytes),
            Source::Mtk => mtk_load(bytes),
            Source::Mali => mali_load(bytes),
            Source::KernelDebugIdle => kernel_d_ged_load(bytes),
            Source::KernelIdle => kernel_debug_ged_load(bytes),
            Source::KernelLoad => kernel_ged_load(bytes),
            Source::ModuleIdle => module_ged_idle(bytes),
            Source::ModuleLoad => module_ged_load(bytes),
        };
        match load {
            Some(v) => {
                let believed = v != 0 || src == Source::ModuleIdle || src == Source::ModuleLoad;
                if believed {
                    Some(v)
                } else {
                    None
                }
            },
            None => None,
        }
    }
}

/// Samples the load once: walks the sources from the most preferred one
/// down, over the files in `files`, and returns the first load that a source
/// gives and that is accepted. Where the walk comes to a usable file that
/// `files` does not hold yet, it asks for that file and leaves the sampler
/// untouched; the caller reads the file, records the outcome in `files` and
/// samples again.
pub fn get_gpu_load(sampler: &mut LoadSampler, files: &NodeFiles) -> (r: Sample)
    ensures
        final(sampler)@ == sampled(old(sampler)@, files@).0,
        r == sampled(old(sampler)@, files@).1,
{
    let mut work = *sampler;
    let mut k: usize = 0;
    while k < SOURCE_COUNT
        invariant
            k <= SOURCE_COUNT,
            *sampler == *old(sampler),
            walk(old(sampler)@, files@, 0) == walk(work@, files@, k as nat),
        decreases SOURCE_COUNT - k,
    {
        let src = Source::at(k);
        match work.path_of(src) {
            None => {},
            Some(p) => {
                match files.get(p) {
                    None => {
                        return Sample::Need(p);
                    },
                    Some(outcome) => {
                        match work.feed(src, outcome) {
                            Some(v) => {
                                *sampler = work;
                                return Sample::Load(v, src);
                            },
                            None => {},
                        }
                    },
                }
            },
        }
        k += 1;
    }
    *sampler = work;
    Sample::NoReading
}

/// A file that is disabled stays disabled, whatever a walk comes across.
pub proof fn lemma_disabled_stays_disabled(
    m: SamplerModel,
    files: Map<NodePath, FileView>,
    from: nat,
    p: NodePath,
)
    requires
        m.usable.len() == NODE_COUNT,
        !m.usable[p.ordinal()],
    ensures
        walk(m, files, from).0.usable.len() == NODE_COUNT,
        !walk(m, files, from).0.usable[p.ordinal()],
    decreases SOURCE_COUNT - from,
{
    if from < SOURCE_COUNT {
        let src = Source::in_order(from as int);
        match src.path_under(m.usable) {
            None => {
                lemma_disabled_stays_disabled(m, files, from + 1, p);
            },
            Some(q) => {
                lemma_ordinal_injective(q, p);
                if files.contains_key(q) {
                    let next = fed(m, src, files[q]);
                    if next.1 is None {
                        lemma_disabled_stays_disabled(next.0, files, from + 1, p);
                    }
                }
            },
        }
    }
}

/// Once a file is disabled, no tick of sampling enables it again.
pub proof fn lemma_sampling_keeps_disabled(
    m: SamplerModel,
    files: Map<NodePath, FileView>,
    p: NodePath,
)
    requires
        m.usable.len() == NODE_COUNT,
        !m.usable[p.ordinal()],
    ensures
        sampled(m, files).0.usable.len() == NODE_COUNT,
        !sampled(m, files).0.usable[p.ordinal()],
        sampled(m, files).1 != Sample::Need(p),
{
    lemma_disabled_stays_disabled(m, files, 0, p);
    lemma_disabled_is_not_read(m, files, files, 0);
}

/// A walk never asks for a disabled file, and what such a file would give
/// has no part in the result: two sets of files that agree on the usable
/// files give the same walk.
pub proof fn lemma_disabled_is_not_read(
    m: SamplerModel,
    files: Map<NodePath, FileView>,
    other: Map<NodePath, FileView>,
    from: nat,
)
    requires
        m.usable.len() == NODE_COUNT,
        forall|p: NodePath| #[trigger]
            m.usable[p.ordinal()] ==> files.contains_key(p) == other.contains_key(p) && (
            files.contains_key(p) ==> files[p] == other[p]),
    ensures
        walk(m, files, from) == walk(m, other, from),
        walk(m, files, from).1 matches Sample::Need(p) ==> m.usable[p.ordinal()],
    decreases SOURCE_COUNT - from,
{
    if from < SOURCE_COUNT {
        let src = Source::in_order(from as int);
        match src.path_under(m.usable) {
            None => {
                lemma_disabled_is_not_read(m, files, other, from + 1);
            },
            Some(q) => {
                assert(m.usable[q.ordinal()]);
                if files.contains_key(q) {
                    let next = fed(m, src, files[q]);
                    if next.1 is None {
                        assert forall|p: NodePath| #[trigger]
                            next.0.usable[p.ordinal()] implies files.contains_key(p)
                            == other.contains_key(p) && (files.contains_key(p) ==> files[p]
                            == other[p]) by {
                            lemma_ordinal_injective(q, p);
                            assert(m.usable[p.ordinal()]);
                        }
                        lemma_ordinal_injective(q, q);
                        lemma_disabled_is_not_read(next.0, files, other, from + 1);
                    }
                }
            },
        }
    }
}

/// A load of exactly zero from a source that is not believed on zero is not
/// accepted: the walk goes on with the next source.
pub proof fn lemma_zero_falls_through(
    m: SamplerModel,
    files: Map<NodePath, FileView>,
    from: nat,
    p: NodePath,
    bytes: Seq<u8>,
)
    requires
        from < SOURCE_COUNT,
        !Source::in_order(from as int).accepts_zero(),
        Source::in_order(from as int).path_under(m.usable) == Some(p),
        files.contains_key(p),
        files[p] == FileView::Content(bytes),
        Source::in_order(from as int).reading(m.prev, bytes).1 == Some(0i32),
    ensures
        fed(m, Source::in_order(from as int), files[p]).1.is_none(),
        walk(m, files, from) == walk(
            fed(m, Source::in_order(from as int), files[p]).0,
            files,
            (from + 1) as nat,
        ),
{
}

/// A walk asks only for a file that has not been read yet, so every answer
/// to it brings the tick forward.
pub proof fn lemma_asked_file_is_new(m: SamplerModel, files: Map<NodePath, FileView>, from: nat)
    ensures
        walk(m, files, from).1 matches Sample::Need(p) ==> !files.contains_key(p),
    decreases SOURCE_COUNT - from,
{
    if from < SOURCE_COUNT {
        let src = Source::in_order(from as int);
        match src.path_under(m.usable) {
            None => {
                lemma_asked_file_is_new(m, files, from + 1);
            },
            Some(q) => {
                if files.contains_key(q) {
                    let next = fed(m, src, files[q]);
                    if next.1 is None {
                        lemma_asked_file_is_new(next.0, files, from + 1);
                    }
                }
            },
        }
    }
}

/// A tick of sampling asks only for a file that has not been read yet.
pub proof fn lemma_sampling_asks_for_new_file(m: SamplerModel, files: Map<NodePath, FileView>)
    ensures
        sampled(m, files).1 matches Sample::Need(p) ==> !files.contains_key(p),
{
    lemma_asked_file_is_new(m, files, 0);
}

/// Why the sampler could not be set up.
#[derive(Clone, Copy, PartialEq, Eq, Debug, Structural)]
pub enum InitError {
    /// None of the load sources has a usable file.
    NoLoadSource,
    /// None of the files that report the frequency is usable.
    NoFrequencyPath,
}

impl InitError {
    /// What went wrong, in words.
    pub fn message(&self) -> (r: &'static str)
        ensures
            r@ == (match self {
                InitError::NoLoadSource => "Can't Monitor GPU Loading!"@,
                InitError::NoFrequencyPath =>
                    "Can't read GPU frequency: no valid frequency path available"@,
            }),
    {
        match self {
            InitError::NoLoadSource => "Can't Monitor GPU Loading!",
            InitError::NoFrequencyPath =>
                "Can't read GPU frequency: no valid frequency path available",
        }
    }
}

/// Some load source has a usable file.
pub open spec fn any_load_source(usable: Seq<bool>) -> bool {
    exists|k: int|
        0 <= k < SOURCE_COUNT && (#[trigger] Source::in_order(k)).path_under(usable).is_some()
}

/// Some file that reports the frequency is usable.
pub open spec fn any_frequency_path(usable: Seq<bool>) -> bool {
    ||| usable[NodePath::GpuCurrentFreq.ordinal()]
    ||| usable[NodePath::GpuDebugCurrentFreq.ordinal()]
    ||| usable[NodePath::GpuFreqLoad.ordinal()]
}

/// Sets the sampler up from the outcome of probing each kernel file once:
/// the files that were readable are the usable ones from now on, and the
/// precise counters start at zero. Fails when no load source has a readable
/// file, and otherwise when no file that reports the frequency is readable.
pub fn utilization_init(readable: &PathStatus) -> (r: Result<LoadSampler, InitError>)
    ensures
        !any_load_source(readable@) ==> r == Err::<LoadSampler, InitError>(InitError::NoLoadSource),
        any_load_source(readable@) && !any_frequency_path(readable@) ==> r == Err::<
            LoadSampler,
            InitError,
        >(InitError::NoFrequencyPath),
        any_load_source(readable@) && any_frequency_path(readable@) ==> r.is_ok()
            && r.unwrap().status == *readable && r.unwrap().prev == (Counters {
            busy: 0,
            idle: 0,
            protm: 0,
        }),
{
    let sampler = LoadSampler { status: *readable, prev: Counters { busy: 0, idle: 0, protm: 0 } };
    let mut is_good = false;
    let mut k: usize = 0;
    while k < SOURCE_COUNT
        invariant
            k <= SOURCE_COUNT,
            sampler.status == *readable,
            is_good ==> any_load_source(readable@),
            !is_good ==> forall|j: int|
                0 <= j < k ==> (#[trigger] Source::in_order(j)).path_under(readable@).is_none(),
        decreases SOURCE_COUNT - k,
    {
        if sampler.path_of(Source::at(k)).is_some() {
            is_good = true;
        }
        k += 1;
    }
    if !is_good {
        return Err(InitError::NoLoadSource);
    }
    let freq_path_available = readable.is_enabled(NodePath::GpuCurrentFreq) || readable.is_enabled(
        NodePath::GpuDebugCurrentFreq,
    ) || readable.is_enabled(NodePath::GpuFreqLoad);
    if !freq_path_available {
        return Err(InitError::NoFrequencyPath);
    }
    Ok(sampler)
}

/// The number in front of the first comma of `s`.
pub open spec fn number_before_comma(s: Seq<u8>) -> Option<i64> {
    match before_first(s, ",".spec_bytes()) {
        Some(num) => i64_of(trimmed(num)),
        None => None,
    }
}

/// The frequency on one line of the dump of the first driver generation.
/// A line of at most three bytes holds none. A line with `idx:` and `freq:`
/// holds it between the first `freq:` and the next comma; a line that starts
/// with `Freq:` holds it between that and the next comma; any other line
/// holds it after `cur_freq = `.
pub open spec fn line_frequency(l: Seq<u8>) -> Option<i64> {
    if l.len() <= 3 {
        None
    } else if after_first(l, "idx:".spec_bytes()).is_some() && after_first(
        l,
        "freq:".spec_bytes(),
    ).is_some() {
        number_before_comma(after_first(l, "freq:".spec_bytes()).unwrap())
    } else if occurs_at(l, "Freq:".spec_bytes(), 0) {
        number_before_comma(l.skip("Freq:".spec_bytes().len() as int))
    } else {
        keyed_i64(l, "cur_freq = ".spec_bytes())
    }
}

/// The frequency in the dump of the first driver generation: that of the
/// first line that holds one.
pub open spec fn dump_frequency(s: Seq<u8>) -> Option<i64>
    decreases s.len(),
{
    if s.len() == 0 {
        None
    } else {
        match line_frequency(first_line(s)) {
            Some(f) => Some(f),
            None => dump_frequency(after_first_line(s)),
        }
    }
}

/// The frequency in a current-frequency file of the second driver
/// generation: the second token of the first line.
pub open spec fn current_frequency(s: Seq<u8>) -> Option<i64> {
    match nth_line(s, 0) {
        Some(l) => token_i64(l, 1),
        None => None,
    }
}

/// The number in front of the first comma of `part`.
fn number_up_to_comma(part: &[u8]) -> (r: Option<i64>)
    ensures
        r == number_before_comma(part@),
{
    match part_before(part, ",".as_bytes()) {
        Some(num) => parse_i64(trim(num)),
        None => None,
    }
}

/// The frequency on one line of the dump of the first driver generation.
fn frequency_on_line(l: &[u8]) -> (r: Option<i64>)
    ensures
        r == line_frequency(l@),
{
    let n = l.len();
    if n <= 3 {
        return None;
    }
    let freq_key = "freq:".as_bytes();
    let head = "Freq:".as_bytes();
    let with_idx = rest_after(l, "idx:".as_bytes());
    let with_freq = rest_after(l, freq_key);
    if with_idx.is_some() && with_freq.is_some() {
        number_up_to_comma(with_freq.unwrap())
    } else if matches_at(l, head, 0) {
        let part = &l[head.len()..n];
        proof {
            assert(part@ =~= l@.skip(head@.len() as int));
        }
        number_up_to_comma(part)
    } else {
        keyed_as_i64(l, "cur_freq = ".as_bytes())
    }
}

/// The frequency in the dump of the first driver generation, if a line
/// holds one.
pub fn frequency_from_dump(content: &[u8]) -> (r: Option<i64>)
    ensures
        r == dump_frequency(content@),
{
    let mut rest = content;
    while rest.len() > 0
        invariant
            dump_frequency(content@) == dump_frequency(rest@),
        decreases rest@.len(),
    {
        let (first, next) = split_line(rest);
        match frequency_on_line(first) {
            Some(f) => {
                return Some(f);
            },
            None => {},
        }
        rest = next;
    }
    None
}

/// The frequency in a current-frequency file of the second driver generation.
pub fn frequency_from_current(content: &[u8]) -> (r: Option<i64>)
    ensures
        r == current_frequency(content@),
{
    match line_at(content, 0) {
        Some(l) => token_as_i64(l, 1),
        None => None,
    }
}

/// Why the current frequency could not be read.
#[derive(Clone, Copy, PartialEq, Eq, Debug, Structural)]
pub enum FreqError {
    /// The dump of the first driver generation is disabled.
    PathUnavailable,
    /// The dump of the first driver generation could not be opened.
    OpenFailed,
    /// No line of the dump holds a frequency.
    NoFrequency,
}

impl FreqError {
    /// What went wrong, in words.
    pub fn message(&self) -> (r: &'static str)
        ensures
            r@ == (match self {
                FreqError::PathUnavailable => "V1 driver frequency path not available"@,
                FreqError::OpenFailed => "Cannot read V1 driver GPU frequency: file open failed"@,
                FreqError::NoFrequency => "Cannot parse V1 driver GPU frequency"@,
            }),
    {
        match self {
            FreqError::PathUnavailable => "V1 driver frequency path not available",
            FreqError::OpenFailed => "Cannot read V1 driver GPU frequency: file open failed",
            FreqError::NoFrequency => "Cannot parse V1 driver GPU frequency",
        }
    }
}

/// Where reading the current frequency stands after the files read so far.
#[derive(Clone, Copy, PartialEq, Eq, Debug, Structural)]
pub enum FreqSample {
    /// This file has to be read before the reading can go on.
    Need(NodePath),
    /// The current frequency in kHz.
    Freq(i64),
    /// No file gave the frequency.
    Failed(FreqError),
}

/// Reading the frequency from the dump of the first driver generation: the
/// status afterwards and the result. A disabled dump is not read; one that
/// cannot be opened is disabled for good.
pub open spec fn dump_read(usable: Seq<bool>, files: Map<NodePath, FileView>) -> (
    Seq<bool>,
    FreqSample,
) {
    let p = NodePath::GpuFreqLoad;
    if !usable[p.ordinal()] {
        (usable, FreqSample::Failed(FreqError::PathUnavailable))
    } else if !files.contains_key(p) {
        (usable, FreqSample::Need(p))
    } else {
        match files[p] {
            FileView::Failed => (
                usable.update(p.ordinal(), false),
                FreqSample::Failed(FreqError::OpenFailed),
            ),
            FileView::Content(bytes) => match dump_frequency(bytes) {
                Some(f) => (usable, FreqSample::Freq(f)),
                None => (usable, FreqSample::Failed(FreqError::NoFrequency)),
            },
        }
    }
}

/// The current-frequency file at position `k` of the second driver
/// generation's chain: the primary file, then the debug one.
pub open spec fn current_path(k: int) -> NodePath {
    if k <= 0 {
        NodePath::GpuCurrentFreq
    } else {
        NodePath::GpuDebugCurrentFreq
    }
}

/// Reading the frequency under the second driver generation, from position
/// `from` of its chain on: the usable current-frequency files in turn, then
/// the dump of the first generation. A file that cannot be read is disabled
/// for good; one without a frequency is passed over this time.
pub open spec fn frequency_walk(usable: Seq<bool>, files: Map<NodePath, FileView>, from: nat) -> (
    Seq<bool>,
    FreqSample,
)
    decreases 2 - from,
{
    if from >= 2 {
        dump_read(usable, files)
    } else {
        let p = current_path(from as int);
        if !usable[p.ordinal()] {
            frequency_walk(usable, files, from + 1)
        } else if !files.contains_key(p) {
            (usable, FreqSample::Need(p))
        } else {
            match files[p] {
                FileView::Failed => frequency_walk(
                    usable.update(p.ordinal(), false),
                    files,
                    from + 1,
                ),
                FileView::Content(bytes) => match current_frequency(bytes) {
                    Some(f) => (usable, FreqSample::Freq(f)),
                    None => frequency_walk(usable, files, from + 1),
                },
            }
        }
    }
}

/// Reading the current frequency once. When a file is still to be read, the
/// status stays as it was.
pub open spec fn frequency_read(
    is_v1_driver: bool,
    usable: Seq<bool>,
    files: Map<NodePath, FileView>,
) -> (Seq<bool>, FreqSample) {
    let w = if is_v1_driver {
        dump_read(usable, files)
    } else {
        frequency_walk(usable, files, 0)
    };
    if w.1 is Need {
        (usable, w.1)
    } else {
        w
    }
}

/// Reads the frequency from the dump of the first driver generation.
pub fn read_v1_gpu_freq_from_var_dump(status: &mut PathStatus, files: &NodeFiles) -> (r: FreqSample)
    ensures
        final(status)@ == dump_read(old(status)@, files@).0,
        r == dump_read(old(status)@, files@).1,
{
    let p = NodePath::GpuFreqLoad;
    if !status.is_enabled(p) {
        return FreqSample::Failed(FreqError::PathUnavailable);
    }
    match files.get(p) {
        None => FreqSample::Need(p),
        Some(ReadOutcome::Failed) => {
            status.set(p, false);
            FreqSample::Failed(FreqError::OpenFailed)
        },
        Some(ReadOutcome::Content(bytes)) => match frequency_from_dump(bytes.as_slice()) {
            Some(f) => FreqSample::Freq(f),
            None => FreqSample::Failed(FreqError::NoFrequency),
        },
    }
}

/// Reads the current frequency over the files in `files`. Under the first
/// driver generation only the dump is consulted; under the second the two
/// current-frequency files come first and the dump is the last resort.
/// Where a usable file is not in `files` yet, the function asks for it and
/// leaves the sampler untouched; the caller reads the file, records the
/// outcome in `files` and calls again.
pub fn get_gpu_current_freq(is_v1_driver: bool, sampler: &mut LoadSampler, files: &NodeFiles) -> (r:
    FreqSample)
    ensures
        final(sampler)@.usable == frequency_read(is_v1_driver, old(sampler)@.usable, files@).0,
        final(sampler).prev == old(sampler).prev,
        r == frequency_read(is_v1_driver, old(sampler)@.usable, files@).1,
{
    let mut status = sampler.status;
    if !is_v1_driver {
        let mut k: usize = 0;
        while k < 2
            invariant
                k <= 2,
                !is_v1_driver,
                *sampler == *old(sampler),
                frequency_walk(old(sampler)@.usable, files@, 0) == frequency_walk(
                    status@,
                    files@,
                    k as nat,
                ),
            decreases 2 - k,
        {
            let p = if k == 0 {
                NodePath::GpuCurrentFreq
            } else {
                NodePath::GpuDebugCurrentFreq
            };
            if status.is_enabled(p) {
                match files.get(p) {
                    None => {
                        return FreqSample::Need(p);
                    },
                    Some(ReadOutcome::Failed) => {
                        status.set(p, false);
                    },
                    Some(ReadOutcome::Content(bytes)) => {
                        match frequency_from_current(bytes.as_slice()) {
                            Some(f) => {
                                sampler.status = status;
                                return FreqSample::Freq(f);
                            },
                            None => {},
                        }
                    },
                }
            }
            k += 1;
        }
    }
    let r = read_v1_gpu_freq_from_var_dump(&mut status, files);
    match r {
        FreqSample::Need(_) => {},
        _ => {
            sampler.status = status;
        },
    }
    r
}

/// Reading the frequency never enables a file again, and it asks only for a
/// file that is usable and has not been read yet.
pub proof fn lemma_frequency_read_keeps_disabled(
    is_v1_driver: bool,
    usable: Seq<bool>,
    files: Map<NodePath, FileView>,
    p: NodePath,
)
    requires
        usable.len() == NODE_COUNT,
    ensures
        frequency_read(is_v1_driver, usable, files).0.len() == NODE_COUNT,
        !usable[p.ordinal()] ==> !frequency_read(is_v1_driver, usable, files).0[p.ordinal()],
        frequency_read(is_v1_driver, usable, files).1 == FreqSample::Need(p) ==> usable[p.ordinal()]
            && !files.contains_key(p),
{
    reveal_with_fuel(frequency_walk, 3);
    lemma_ordinal_injective(NodePath::GpuCurrentFreq, p);
    lemma_ordinal_injective(NodePath::GpuDebugCurrentFreq, p);
    lemma_ordinal_injective(NodePath::GpuFreqLoad, p);
}

} // verus!
