//! Resource estimates.
use zencodec::estimate::{
    ComputeEnvironment, ImageCharacteristics, ResourceEstimate, SimdTier, ThreadingInformation,
};
use zencodec::pixels::PixelDescriptor;

fn desc() -> PixelDescriptor {
    PixelDescriptor::RGB8_SRGB()
}

#[test]
fn compute_environment_builder_clamps_and_defaults() {
    assert_eq!(ComputeEnvironment::new().cores(), 1);
    assert_eq!(ComputeEnvironment::new().with_cores(0).cores(), 1);
    assert_eq!(ComputeEnvironment::default().with_cores(16).cores(), 16);
    assert_eq!(
        ComputeEnvironment::new()
            .with_available_ram_bytes(1 << 30)
            .available_ram_bytes(),
        Some(1 << 30)
    );
    // SIMD tier defaults to unspecified; the builder sets it.
    assert_eq!(ComputeEnvironment::new().simd_tier(), None);
    assert_eq!(
        ComputeEnvironment::new()
            .with_simd_tier(SimdTier::X86V3)
            .simd_tier(),
        Some(SimdTier::X86V3)
    );
}

#[test]
fn image_characteristics_sizes() {
    let im = ImageCharacteristics::new(1024, 768, desc());
    assert_eq!(im.pixels(), 1024 * 768);
    assert_eq!(im.input_bytes(), 1024 * 768 * 3);
    assert_eq!(im.with_frame_count(0).frame_count(), 1);
}

#[test]
fn serial_threading_is_one_thread() {
    let ti = ThreadingInformation::SERIAL();
    assert_eq!(ti.effective_threads(28), 1);
    assert_eq!(ti.max_efficient_threads(), Some(1));
    assert!(!ti.is_parallel());
}

#[test]
fn parallel_effective_threads_saturate_at_the_knee() {
    let ti = ThreadingInformation::parallel(8);
    assert!(ti.is_parallel());
    assert_eq!(ti.max_efficient_threads(), Some(8));
    assert_eq!(ti.effective_threads(4), 4); // below the knee
    assert_eq!(ti.effective_threads(28), 8); // clamped to the knee
    assert_eq!(
        ThreadingInformation::parallel(0).max_efficient_threads(),
        Some(1)
    ); // >= 1
}

#[test]
fn parallel_unknown_knee_scales_to_all_cores() {
    let ti = ThreadingInformation::parallel_unknown_knee();
    assert!(ti.is_parallel());
    assert_eq!(ti.max_efficient_threads(), None);
    assert_eq!(ti.effective_threads(28), 28); // no knee -> all cores
    assert_eq!(ti.effective_threads(1), 1);
}

#[test]
fn at_cores_scales_wall_to_the_knee_and_leaves_peak_and_cpu() {
    let base = ResourceEstimate::new(200, 1000)
        .with_peak_max(400)
        .with_cpu_ms(1000)
        .with_threading(ThreadingInformation::parallel(8));
    // wall / effective_threads(4) = 1000 / 4
    assert_eq!(base.at_cores(4).wall_ms(), Some(250));
    // beyond the knee, no further gain: / 8
    assert_eq!(base.at_cores(28).wall_ms(), Some(125));
    // peak memory and CPU time are unchanged by at_cores
    assert_eq!(base.at_cores(4).peak_memory_bytes_est(), Some(200));
    assert_eq!(base.at_cores(4).peak_memory_bytes_max(), Some(400));
    assert_eq!(base.at_cores(4).cpu_ms(), Some(1000));
}

#[test]
fn new_sets_only_peak_est_and_wall() {
    let est = ResourceEstimate::new(200, 1000);
    assert_eq!(est.peak_memory_bytes_est(), Some(200));
    assert_eq!(est.wall_ms(), Some(1000));
    // everything else opts in via setters
    assert_eq!(est.peak_memory_bytes_max(), None);
    assert_eq!(est.cpu_ms(), None);
    assert_eq!(est.threading(), None);
    // no threading -> at_cores is a no-op
    assert_eq!(est.at_cores(8).wall_ms(), Some(1000));
}

#[test]
fn unknown_is_all_none_and_at_cores_is_a_noop() {
    let est = ResourceEstimate::unknown();
    assert_eq!(est.peak_memory_bytes_est(), None);
    assert_eq!(est.peak_memory_bytes_max(), None);
    assert_eq!(est.wall_ms(), None);
    assert_eq!(est.cpu_ms(), None);
    assert_eq!(est.threading(), None);
    assert_eq!(est.at_cores(28), est);
}

#[test]
fn conservative_is_serial_and_input_scaled() {
    let est = ResourceEstimate::conservative(&ImageCharacteristics::new(1000, 1000, desc()));
    assert_eq!(est.threading().map(|t| t.is_parallel()), Some(false));
    assert!(est.peak_memory_bytes_est().unwrap() >= 1000 * 1000 * 3);
    // serial: at_cores leaves wall unchanged
    assert_eq!(est.at_cores(28).wall_ms(), est.wall_ms());
}

#[test]
fn more_cores_never_slow_an_estimate() {
    let base = ResourceEstimate::new(1, 1000).with_threading(ThreadingInformation::parallel(6));
    let mut last = base.at_cores(1).wall_ms().unwrap();
    assert_eq!(last, 1000);
    for cores in 2..=32 {
        let wall = base.at_cores(cores).wall_ms().unwrap();
        assert!(wall <= last);
        last = wall;
    }
    assert_eq!(last, 166);
}

#[test]
fn image_characteristics_are_read_back() {
    let im = ImageCharacteristics::new(3, 5, desc()).with_frame_count(7);
    assert_eq!((im.width(), im.height(), im.frame_count()), (3, 5, 7));
    assert_eq!(*im.descriptor(), desc());
}
