use gpu_governor::datasource::load_monitor::{
    debug_dvfs_load_func, frequency_from_current, frequency_from_dump, get_gpu_current_freq,
    get_gpu_load, gpufreq_load, kernel_d_ged_load, kernel_debug_ged_load, kernel_ged_load,
    mali_load, module_ged_idle, module_ged_load, mtk_load, read_v1_gpu_freq_from_var_dump,
    utilization_init, Counters, FreqError, FreqSample, InitError, LoadSampler, Sample, Source,
};
use gpu_governor::datasource::node::{NodeFiles, NodePath, PathStatus, ReadOutcome};

const LOAD_PATHS: [NodePath; 10] = [
    NodePath::DebugDvfsLoad,
    NodePath::DebugDvfsLoadOld,
    NodePath::GpuFreqLoad,
    NodePath::ProcMtkLoad,
    NodePath::ProcMaliLoad,
    NodePath::KernelDebugLoad,
    NodePath::KernelDLoad,
    NodePath::KernelLoad,
    NodePath::ModuleIdle,
    NodePath::ModuleLoad,
];

fn status(usable: &[NodePath]) -> PathStatus {
    let mut s = PathStatus::none();
    for p in usable {
        s.set(*p, true);
    }
    s
}

fn sampler(usable: &[NodePath]) -> LoadSampler {
    LoadSampler { status: status(usable), prev: Counters { busy: 0, idle: 0, protm: 0 } }
}

fn files(entries: &[(NodePath, Option<&str>)]) -> NodeFiles {
    let mut f = NodeFiles::new();
    for (p, content) in entries {
        f.put(
            *p,
            match content {
                Some(text) => ReadOutcome::Content(text.as_bytes().to_vec()),
                None => ReadOutcome::Failed,
            },
        );
    }
    f
}

#[test]
fn precise_load_from_counter_deltas() {
    let mut prev = Counters { busy: 100, idle: 50, protm: 0 };
    let load = debug_dvfs_load_func(&mut prev, b"busy idle protm\n150 70 10\n");
    assert_eq!(load, Some(75));
    assert_eq!((prev.busy, prev.idle, prev.protm), (150, 70, 10));
}

#[test]
fn precise_load_uses_first_three_fields_of_second_line() {
    let mut prev = Counters { busy: 0, idle: 0, protm: 0 };
    assert_eq!(debug_dvfs_load_func(&mut prev, b"h\n 30 60 10 999 extra\nignored"), Some(40));
    assert_eq!((prev.busy, prev.idle, prev.protm), (30, 60, 10));
}

#[test]
fn precise_load_rounds_down() {
    let mut prev = Counters { busy: 0, idle: 0, protm: 0 };
    assert_eq!(debug_dvfs_load_func(&mut prev, b"h\n1 2 0"), Some(33));
    let mut prev = Counters { busy: 0, idle: 0, protm: 0 };
    assert_eq!(debug_dvfs_load_func(&mut prev, b"h\n2 1 0"), Some(66));
}

#[test]
fn precise_load_without_progress_is_invalid() {
    let mut prev = Counters { busy: 10, idle: 20, protm: 30 };
    assert_eq!(debug_dvfs_load_func(&mut prev, b"h\n10 20 30"), None);
    assert_eq!((prev.busy, prev.idle, prev.protm), (10, 20, 30));
    assert_eq!(debug_dvfs_load_func(&mut prev, b"h\n5 20 30"), None);
    assert_eq!((prev.busy, prev.idle, prev.protm), (5, 20, 30));
}

#[test]
fn precise_load_clamps_negative_activity() {
    let mut prev = Counters { busy: 100, idle: 0, protm: 0 };
    assert_eq!(debug_dvfs_load_func(&mut prev, b"h\n90 50 0"), Some(0));
}

#[test]
fn precise_load_handles_extreme_counters() {
    let mut prev = Counters { busy: i64::MIN, idle: 0, protm: i64::MIN };
    let text = format!("h\n{} 0 {}", i64::MAX, i64::MAX);
    assert_eq!(debug_dvfs_load_func(&mut prev, text.as_bytes()), Some(100));
    let mut prev = Counters { busy: 0, idle: 100, protm: 0 };
    assert_eq!(debug_dvfs_load_func(&mut prev, format!("h\n{} 1 0", i64::MAX).as_bytes()), Some(100));
    let mut prev = Counters { busy: 0, idle: i64::MAX, protm: 0 };
    assert_eq!(debug_dvfs_load_func(&mut prev, format!("h\n{} 1 0", i64::MAX).as_bytes()), None);
    assert_eq!(prev.busy, i64::MAX);
    let mut prev = Counters { busy: 0, idle: 21_474_835, protm: 0 };
    assert_eq!(debug_dvfs_load_func(&mut prev, b"h\n21474836 0 0"), Some(2_147_483_600));
    let mut prev = Counters { busy: 0, idle: 21_474_836, protm: 0 };
    assert_eq!(debug_dvfs_load_func(&mut prev, b"h\n21474837 0 0"), None);
}

#[test]
fn precise_load_needs_two_lines_and_three_numbers() {
    for text in ["", "150 70 10", "h\n", "h\n150 70", "h\n150 x 10", "h\n\n150 70 10"] {
        let mut prev = Counters { busy: 1, idle: 2, protm: 3 };
        assert_eq!(debug_dvfs_load_func(&mut prev, text.as_bytes()), None);
        assert_eq!((prev.busy, prev.idle, prev.protm), (1, 2, 3));
    }
}

#[test]
fn module_files_hold_one_integer() {
    assert_eq!(module_ged_load(b"37\n"), Some(37));
    assert_eq!(module_ged_load(b"  0 "), Some(0));
    assert_eq!(module_ged_load(b"37 1"), None);
    assert_eq!(module_ged_load(b""), None);
    assert_eq!(module_ged_idle(b"30\n"), Some(70));
    assert_eq!(module_ged_idle(b"100"), Some(0));
    assert_eq!(module_ged_idle(b"-5"), Some(105));
    assert_eq!(module_ged_idle(b"idle"), None);
}

#[test]
fn idle_complement_that_does_not_fit_is_no_reading() {
    assert_eq!(module_ged_idle(b"-2147483547"), Some(i32::MAX));
    assert_eq!(module_ged_idle(b"-2147483548"), None);
    assert_eq!(module_ged_idle(b"2147483647"), Some(100 - i32::MAX));
    assert_eq!(kernel_d_ged_load(b"a b -2147483648"), None);
}

#[test]
fn kernel_files_use_the_third_token() {
    assert_eq!(kernel_d_ged_load(b"12 34 25 99\n"), Some(75));
    assert_eq!(kernel_debug_ged_load(b"12 34 25"), Some(75));
    assert_eq!(kernel_ged_load(b"12 34 25"), Some(25));
    assert_eq!(kernel_d_ged_load(b"12 34"), None);
    assert_eq!(kernel_debug_ged_load(b"12 34 x"), None);
    assert_eq!(kernel_ged_load(b""), None);
    assert_eq!(kernel_debug_ged_load(b"1 2 100"), Some(0));
}

#[test]
fn proc_files_use_the_value_after_the_key() {
    assert_eq!(mali_load(b"gpu/cljs0/cljs1=45\n"), Some(45));
    assert_eq!(mali_load(b"a= 7 "), Some(7));
    assert_eq!(mali_load(b"a=1=2"), None);
    assert_eq!(mali_load(b"no key"), None);
    assert_eq!(mtk_load(b"ACTIVE=63\n"), Some(63));
    assert_eq!(mtk_load(b"x ACTIVE= 5"), Some(5));
    assert_eq!(mtk_load(b"ACTIVE=5\nMORE=1"), None);
    assert_eq!(mtk_load(b"active=5"), None);
}

#[test]
fn gpufreq_dump_is_searched_line_by_line() {
    assert_eq!(gpufreq_load(b"a\ngpu_loading = 42\nb"), Some(42));
    assert_eq!(gpufreq_load(b"gpu_loading = x\ngpu_loading = 7\r\ngpu_loading = 9"), Some(7));
    assert_eq!(gpufreq_load(b"[x] gpu_loading =  13  "), Some(13));
    assert_eq!(gpufreq_load(b"gpu_loading = 0\ngpu_loading = 9"), Some(0));
    assert_eq!(gpufreq_load(b"gpu_loading=5"), None);
    assert_eq!(gpufreq_load(b""), None);
}

#[test]
fn chain_prefers_the_first_usable_source() {
    let mut s = sampler(&LOAD_PATHS);
    let f = files(&[
        (NodePath::DebugDvfsLoad, Some("h\n50 50 0")),
        (NodePath::GpuFreqLoad, Some("gpu_loading = 11")),
    ]);
    assert_eq!(get_gpu_load(&mut s, &f), Sample::Load(50, Source::Precise));
    assert_eq!(s.prev.busy, 50);
}

#[test]
fn chain_order_is_fixed() {
    let contents = [
        (NodePath::DebugDvfsLoad, "h\n1 99 0"),
        (NodePath::GpuFreqLoad, "gpu_loading = 2"),
        (NodePath::ProcMtkLoad, "ACTIVE=3"),
        (NodePath::ProcMaliLoad, "gpu=4"),
        (NodePath::KernelDebugLoad, "0 0 95"),
        (NodePath::KernelDLoad, "0 0 94"),
        (NodePath::KernelLoad, "0 0 7"),
        (NodePath::ModuleIdle, "92"),
        (NodePath::ModuleLoad, "9"),
    ];
    for first in 0..contents.len() {
        let usable: Vec<NodePath> = contents[first..].iter().map(|e| e.0).collect();
        let entries: Vec<(NodePath, Option<&str>)> = contents.iter().map(|e| (e.0, Some(e.1))).collect();
        let mut s = sampler(&usable);
        assert_eq!(get_gpu_load(&mut s, &files(&entries)), Sample::Load(first as i32 + 1, Source::at(first)));
        assert_eq!(Source::at(first), [
            Source::Precise,
            Source::GpuFreq,
            Source::Mtk,
            Source::Mali,
            Source::KernelDebugIdle,
            Source::KernelIdle,
            Source::KernelLoad,
            Source::ModuleIdle,
            Source::ModuleLoad,
        ][first]);
    }
}

#[test]
fn precise_source_uses_older_location_when_current_is_disabled() {
    let mut s = sampler(&[NodePath::DebugDvfsLoadOld, NodePath::ModuleLoad]);
    let f = files(&[
        (NodePath::DebugDvfsLoad, Some("h\n10 90 0")),
        (NodePath::DebugDvfsLoadOld, Some("h\n20 80 0")),
        (NodePath::ModuleLoad, Some("5")),
    ]);
    assert_eq!(s.path_of(Source::Precise), Some(NodePath::DebugDvfsLoadOld));
    assert_eq!(get_gpu_load(&mut s, &f), Sample::Load(20, Source::Precise));
    let mut both = sampler(&[NodePath::DebugDvfsLoad, NodePath::DebugDvfsLoadOld]);
    assert_eq!(both.path_of(Source::Precise), Some(NodePath::DebugDvfsLoad));
    assert_eq!(get_gpu_load(&mut both, &f), Sample::Load(10, Source::Precise));
}

#[test]
fn zero_from_idle_source_falls_through() {
    let mut s = sampler(&[NodePath::KernelDebugLoad, NodePath::ModuleLoad]);
    let f = files(&[(NodePath::KernelDebugLoad, Some("1 2 100")), (NodePath::ModuleLoad, Some("17"))]);
    assert_eq!(get_gpu_load(&mut s, &f), Sample::Load(17, Source::ModuleLoad));
    assert!(s.status.is_enabled(NodePath::KernelDebugLoad));
}

#[test]
fn zero_falls_through_to_the_very_next_source() {
    let mut s = sampler(&LOAD_PATHS);
    let f = files(&[
        (NodePath::DebugDvfsLoad, Some("h\n0 100 0")),
        (NodePath::GpuFreqLoad, Some("gpu_loading = 31")),
        (NodePath::ProcMtkLoad, Some("ACTIVE=32")),
    ]);
    assert_eq!(get_gpu_load(&mut s, &f), Sample::Load(31, Source::GpuFreq));
    let mut s = sampler(&LOAD_PATHS);
    let f = files(&[
        (NodePath::DebugDvfsLoad, None),
        (NodePath::DebugDvfsLoadOld, None),
        (NodePath::GpuFreqLoad, None),
        (NodePath::ProcMtkLoad, None),
        (NodePath::ProcMaliLoad, None),
        (NodePath::KernelDebugLoad, None),
        (NodePath::KernelDLoad, None),
        (NodePath::KernelLoad, Some("0 0 0")),
        (NodePath::ModuleIdle, Some("60")),
        (NodePath::ModuleLoad, Some("99")),
    ]);
    assert_eq!(get_gpu_load(&mut s, &f), Sample::Load(40, Source::ModuleIdle));
}

#[test]
fn zero_from_every_upper_source_falls_through() {
    let zero = [
        (NodePath::DebugDvfsLoad, "h\n0 100 0"),
        (NodePath::GpuFreqLoad, "gpu_loading = 0"),
        (NodePath::ProcMtkLoad, "ACTIVE=0"),
        (NodePath::ProcMaliLoad, "gpu=0"),
        (NodePath::KernelDebugLoad, "0 0 100"),
        (NodePath::KernelDLoad, "0 0 100"),
        (NodePath::KernelLoad, "0 0 0"),
    ];
    for (p, text) in zero {
        let mut s = sampler(&[p, NodePath::ModuleLoad]);
        let f = files(&[(p, Some(text)), (NodePath::ModuleLoad, Some("23"))]);
        assert_eq!(get_gpu_load(&mut s, &f), Sample::Load(23, Source::ModuleLoad));
    }
}

#[test]
fn zero_from_the_two_lowest_sources_is_accepted() {
    let mut s = sampler(&[NodePath::ModuleIdle, NodePath::ModuleLoad]);
    let f = files(&[(NodePath::ModuleIdle, Some("100")), (NodePath::ModuleLoad, Some("55"))]);
    assert_eq!(get_gpu_load(&mut s, &f), Sample::Load(0, Source::ModuleIdle));
    let mut s = sampler(&[NodePath::ModuleLoad]);
    let f = files(&[(NodePath::ModuleLoad, Some("0"))]);
    assert_eq!(get_gpu_load(&mut s, &f), Sample::Load(0, Source::ModuleLoad));
}

#[test]
fn parse_failure_skips_source_for_this_call_only() {
    let mut s = sampler(&[NodePath::ProcMaliLoad, NodePath::ModuleLoad]);
    let f = files(&[(NodePath::ProcMaliLoad, Some("garbage")), (NodePath::ModuleLoad, Some("12"))]);
    assert_eq!(get_gpu_load(&mut s, &f), Sample::Load(12, Source::ModuleLoad));
    assert!(s.status.is_enabled(NodePath::ProcMaliLoad));
    let f = files(&[(NodePath::ProcMaliLoad, Some("gpu=64")), (NodePath::ModuleLoad, Some("12"))]);
    assert_eq!(get_gpu_load(&mut s, &f), Sample::Load(64, Source::Mali));
}

#[test]
fn io_failure_disables_source_for_good() {
    let mut s = sampler(&[NodePath::ProcMaliLoad, NodePath::ModuleLoad]);
    let f = files(&[(NodePath::ProcMaliLoad, None), (NodePath::ModuleLoad, Some("12"))]);
    assert_eq!(get_gpu_load(&mut s, &f), Sample::Load(12, Source::ModuleLoad));
    assert!(!s.status.is_enabled(NodePath::ProcMaliLoad));
    assert!(s.status.is_enabled(NodePath::ModuleLoad));
    let later = files(&[(NodePath::ModuleLoad, Some("13"))]);
    assert_eq!(get_gpu_load(&mut s, &later), Sample::Load(13, Source::ModuleLoad));
    let healed = files(&[(NodePath::ProcMaliLoad, Some("gpu=64")), (NodePath::ModuleLoad, Some("14"))]);
    assert_eq!(get_gpu_load(&mut s, &healed), Sample::Load(14, Source::ModuleLoad));
    assert!(!s.status.is_enabled(NodePath::ProcMaliLoad));
    assert_eq!(s.path_of(Source::Mali), None);
}

#[test]
fn sampling_asks_for_files_one_at_a_time() {
    let mut s = sampler(&[NodePath::ProcMtkLoad, NodePath::KernelLoad, NodePath::ModuleLoad]);
    let mut f = NodeFiles::new();
    assert_eq!(get_gpu_load(&mut s, &f), Sample::Need(NodePath::ProcMtkLoad));
    f.put(NodePath::ProcMtkLoad, ReadOutcome::Failed);
    assert_eq!(get_gpu_load(&mut s, &f), Sample::Need(NodePath::KernelLoad));
    assert!(s.status.is_enabled(NodePath::ProcMtkLoad));
    f.put(NodePath::KernelLoad, ReadOutcome::Content(b"0 0 0".to_vec()));
    assert_eq!(get_gpu_load(&mut s, &f), Sample::Need(NodePath::ModuleLoad));
    f.put(NodePath::ModuleLoad, ReadOutcome::Content(b"41".to_vec()));
    assert_eq!(get_gpu_load(&mut s, &f), Sample::Load(41, Source::ModuleLoad));
    assert!(!s.status.is_enabled(NodePath::ProcMtkLoad));
    assert!(s.status.is_enabled(NodePath::KernelLoad));
    assert!(f.get(NodePath::ModuleIdle).is_none());
    assert!(f.get(NodePath::ModuleLoad).is_some());
}

#[test]
fn precise_counters_are_kept_only_when_sampling_completes() {
    let mut s = sampler(&[NodePath::DebugDvfsLoad, NodePath::ModuleLoad]);
    let mut f = files(&[(NodePath::DebugDvfsLoad, Some("h\n0 40 0"))]);
    assert_eq!(get_gpu_load(&mut s, &f), Sample::Need(NodePath::ModuleLoad));
    assert_eq!(s.prev.idle, 0);
    f.put(NodePath::ModuleLoad, ReadOutcome::Content(b"8".to_vec()));
    assert_eq!(get_gpu_load(&mut s, &f), Sample::Load(8, Source::ModuleLoad));
    assert_eq!(s.prev.idle, 40);
    let next = files(&[(NodePath::DebugDvfsLoad, Some("h\n30 50 0"))]);
    assert_eq!(get_gpu_load(&mut s, &next), Sample::Load(75, Source::Precise));
}

#[test]
fn exhausted_chain_gives_no_reading() {
    let mut s = sampler(&[]);
    assert_eq!(get_gpu_load(&mut s, &NodeFiles::new()), Sample::NoReading);
    let mut s = sampler(&[NodePath::ModuleLoad, NodePath::GpuCurrentFreq]);
    let f = files(&[(NodePath::ModuleLoad, Some("nothing"))]);
    assert_eq!(get_gpu_load(&mut s, &f), Sample::NoReading);
    let f = files(&[(NodePath::ModuleLoad, None)]);
    assert_eq!(get_gpu_load(&mut s, &f), Sample::NoReading);
    assert!(!s.status.is_enabled(NodePath::ModuleLoad));
    assert!(s.status.is_enabled(NodePath::GpuCurrentFreq));
}

#[test]
fn feed_reports_what_one_source_makes_of_its_file() {
    let mut s = sampler(&[NodePath::ModuleIdle]);
    assert_eq!(s.feed(Source::ModuleIdle, &ReadOutcome::Content(b"25".to_vec())), Some(75));
    assert_eq!(s.feed(Source::ModuleLoad, &ReadOutcome::Content(b"25".to_vec())), None);
    assert_eq!(s.feed(Source::ModuleLoad, &ReadOutcome::Failed), None);
    assert!(s.status.is_enabled(NodePath::ModuleIdle));
    assert_eq!(s.feed(Source::ModuleIdle, &ReadOutcome::Failed), None);
    assert!(!s.status.is_enabled(NodePath::ModuleIdle));
    assert_eq!(s.feed(Source::ModuleIdle, &ReadOutcome::Content(b"25".to_vec())), None);
}

#[test]
fn init_needs_a_load_source_and_a_frequency_path() {
    let ok = utilization_init(&status(&[NodePath::ModuleLoad, NodePath::GpuCurrentFreq])).unwrap();
    assert!(ok.status.is_enabled(NodePath::ModuleLoad));
    assert!(ok.status.is_enabled(NodePath::GpuCurrentFreq));
    assert!(!ok.status.is_enabled(NodePath::ModuleIdle));
    assert_eq!((ok.prev.busy, ok.prev.idle, ok.prev.protm), (0, 0, 0));
    assert_eq!(utilization_init(&status(&[])).unwrap_err(), InitError::NoLoadSource);
    assert_eq!(
        utilization_init(&status(&[NodePath::GpuCurrentFreq, NodePath::GpuDebugCurrentFreq])).unwrap_err(),
        InitError::NoLoadSource
    );
    assert_eq!(
        utilization_init(&status(&[NodePath::ModuleLoad, NodePath::KernelLoad])).unwrap_err(),
        InitError::NoFrequencyPath
    );
    assert!(utilization_init(&status(&[NodePath::GpuFreqLoad])).is_ok());
    assert!(utilization_init(&status(&[NodePath::DebugDvfsLoadOld, NodePath::GpuDebugCurrentFreq])).is_ok());
    for p in LOAD_PATHS {
        assert!(utilization_init(&status(&[p, NodePath::GpuCurrentFreq])).is_ok());
    }
}

#[test]
fn init_errors_are_descriptive() {
    assert_eq!(InitError::NoLoadSource.message(), "Can't Monitor GPU Loading!");
    assert_eq!(
        InitError::NoFrequencyPath.message(),
        "Can't read GPU frequency: no valid frequency path available"
    );
    assert_eq!(FreqError::PathUnavailable.message(), "V1 driver frequency path not available");
    assert_eq!(FreqError::OpenFailed.message(), "Cannot read V1 driver GPU frequency: file open failed");
    assert_eq!(FreqError::NoFrequency.message(), "Cannot parse V1 driver GPU frequency");
}

#[test]
fn v1_dump_formats() {
    assert_eq!(frequency_from_dump(b"[0] idx: 3, freq: 653000, vgpu: 65000, vsram_gpu: 75000\n"), Some(653000));
    assert_eq!(frequency_from_dump(b"Freq: 431000, Vgpu: 60000, Vsram_gpu: 70000\n"), Some(431000));
    assert_eq!(frequency_from_dump(b"cur_freq = 299000\n"), Some(299000));
    assert_eq!(frequency_from_dump(b"x cur_freq =  299000  "), Some(299000));
}

#[test]
fn v1_dump_returns_first_frequency_that_parses() {
    let dump = b"hdr\nab\nidx: 1, freq: bad, v\nFreq: 350000, V\ncur_freq = 1\n";
    assert_eq!(frequency_from_dump(dump), Some(350000));
    assert_eq!(frequency_from_dump(b"cur_freq = 5\nFreq: 6,"), Some(5));
}

#[test]
fn v1_dump_skips_short_and_malformed_lines() {
    assert_eq!(frequency_from_dump(b""), None);
    assert_eq!(frequency_from_dump(b"1,\n22\n333\n"), None);
    assert_eq!(frequency_from_dump(b"idx: 1, freq: 5"), None);
    assert_eq!(frequency_from_dump(b"Freq: 5"), None);
    assert_eq!(frequency_from_dump(b"idx: 1, freq: x, cur_freq = 5"), None);
    assert_eq!(frequency_from_dump(b"freq: 5, cur_freq = 7"), Some(7));
    assert_eq!(frequency_from_dump(b"cur_freq = 5 khz"), None);
}

#[test]
fn v2_current_frequency_is_second_token_of_first_line() {
    assert_eq!(frequency_from_current(b"3 853000 65000\n"), Some(853000));
    assert_eq!(frequency_from_current(b"  3   853000"), Some(853000));
    assert_eq!(frequency_from_current(b"3\n853000"), None);
    assert_eq!(frequency_from_current(b"3 x"), None);
    assert_eq!(frequency_from_current(b""), None);
}

#[test]
fn v1_driver_reads_only_the_dump() {
    let mut s = sampler(&[NodePath::GpuCurrentFreq, NodePath::GpuFreqLoad]);
    let f = files(&[
        (NodePath::GpuCurrentFreq, Some("0 111")),
        (NodePath::GpuFreqLoad, Some("cur_freq = 222")),
    ]);
    assert_eq!(get_gpu_current_freq(true, &mut s, &f), FreqSample::Freq(222));
    assert_eq!(get_gpu_current_freq(false, &mut s, &f), FreqSample::Freq(111));
}

#[test]
fn v1_dump_errors() {
    let mut st = status(&[]);
    assert_eq!(
        read_v1_gpu_freq_from_var_dump(&mut st, &NodeFiles::new()),
        FreqSample::Failed(FreqError::PathUnavailable)
    );
    let mut st = status(&[NodePath::GpuFreqLoad]);
    assert_eq!(read_v1_gpu_freq_from_var_dump(&mut st, &NodeFiles::new()), FreqSample::Need(NodePath::GpuFreqLoad));
    assert_eq!(
        read_v1_gpu_freq_from_var_dump(&mut st, &files(&[(NodePath::GpuFreqLoad, Some("no frequency here"))])),
        FreqSample::Failed(FreqError::NoFrequency)
    );
    assert!(st.is_enabled(NodePath::GpuFreqLoad));
    assert_eq!(
        read_v1_gpu_freq_from_var_dump(&mut st, &files(&[(NodePath::GpuFreqLoad, None)])),
        FreqSample::Failed(FreqError::OpenFailed)
    );
    assert!(!st.is_enabled(NodePath::GpuFreqLoad));
    assert_eq!(
        read_v1_gpu_freq_from_var_dump(&mut st, &files(&[(NodePath::GpuFreqLoad, Some("cur_freq = 1"))])),
        FreqSample::Failed(FreqError::PathUnavailable)
    );
}

#[test]
fn v2_driver_falls_back_along_its_chain() {
    let all = [NodePath::GpuCurrentFreq, NodePath::GpuDebugCurrentFreq, NodePath::GpuFreqLoad];
    let mut s = sampler(&all);
    let f = files(&[
        (NodePath::GpuCurrentFreq, Some("only-one-token")),
        (NodePath::GpuDebugCurrentFreq, Some("1 500000")),
        (NodePath::GpuFreqLoad, Some("cur_freq = 1")),
    ]);
    assert_eq!(get_gpu_current_freq(false, &mut s, &f), FreqSample::Freq(500000));
    assert!(s.status.is_enabled(NodePath::GpuCurrentFreq));

    let f = files(&[
        (NodePath::GpuCurrentFreq, None),
        (NodePath::GpuDebugCurrentFreq, None),
        (NodePath::GpuFreqLoad, Some("Freq: 400000, V")),
    ]);
    assert_eq!(get_gpu_current_freq(false, &mut s, &f), FreqSample::Freq(400000));
    assert!(!s.status.is_enabled(NodePath::GpuCurrentFreq));
    assert!(!s.status.is_enabled(NodePath::GpuDebugCurrentFreq));
    assert!(s.status.is_enabled(NodePath::GpuFreqLoad));

    let healed = files(&[
        (NodePath::GpuCurrentFreq, Some("1 999")),
        (NodePath::GpuFreqLoad, Some("Freq: 400000, V")),
    ]);
    assert_eq!(get_gpu_current_freq(false, &mut s, &healed), FreqSample::Freq(400000));
}

#[test]
fn frequency_reading_asks_for_files_and_commits_at_the_end() {
    let mut s = sampler(&[NodePath::GpuCurrentFreq, NodePath::GpuFreqLoad]);
    let mut f = NodeFiles::new();
    assert_eq!(get_gpu_current_freq(false, &mut s, &f), FreqSample::Need(NodePath::GpuCurrentFreq));
    f.put(NodePath::GpuCurrentFreq, ReadOutcome::Failed);
    assert_eq!(get_gpu_current_freq(false, &mut s, &f), FreqSample::Need(NodePath::GpuFreqLoad));
    assert!(s.status.is_enabled(NodePath::GpuCurrentFreq));
    f.put(NodePath::GpuFreqLoad, ReadOutcome::Failed);
    assert_eq!(get_gpu_current_freq(false, &mut s, &f), FreqSample::Failed(FreqError::OpenFailed));
    assert!(!s.status.is_enabled(NodePath::GpuCurrentFreq));
    assert!(!s.status.is_enabled(NodePath::GpuFreqLoad));
    assert_eq!(
        get_gpu_current_freq(false, &mut s, &NodeFiles::new()),
        FreqSample::Failed(FreqError::PathUnavailable)
    );
}

#[test]
fn path_positions_are_distinct() {
    let all = [
        NodePath::DebugDvfsLoad,
        NodePath::DebugDvfsLoadOld,
        NodePath::GpuFreqLoad,
        NodePath::ProcMtkLoad,
        NodePath::ProcMaliLoad,
        NodePath::KernelDebugLoad,
        NodePath::KernelDLoad,
        NodePath::KernelLoad,
        NodePath::ModuleIdle,
        NodePath::ModuleLoad,
        NodePath::GpuCurrentFreq,
        NodePath::GpuDebugCurrentFreq,
    ];
    for (i, p) in all.iter().enumerate() {
        assert_eq!(p.index(), i);
        let mut s = PathStatus::none();
        s.set(*p, true);
        for q in all {
            assert_eq!(s.is_enabled(q), q == *p);
        }
    }
}
