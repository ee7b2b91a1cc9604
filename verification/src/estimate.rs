//! Predicted memory, time and scaling of an encode or decode.
use crate::cost::{area, area_of, packed_size, packed_size_of};
use crate::pixels::PixelDescriptor;
use vstd::prelude::*;

verus! {

/// The vector instructions that a codec will use.
#[derive(Clone, Copy, Debug, PartialEq, Eq, Hash, Structural)]
#[non_exhaustive]
pub enum SimdTier {
    /// Not known: an average over tiers is assumed.
    Unknown,
    /// That of the host that makes the estimate.
    CurrentHost,
    /// WebAssembly without vectors.
    Wasm,
    /// WebAssembly SIMD128.
    Wasm128,
    /// ARM NEON.
    Neon,
    /// SSE2.
    X86V1,
    /// SSE4.2.
    X86V2,
    /// AVX2 and FMA.
    X86V3,
    /// AVX-512.
    X86V4,
}

/// The hardware that an estimate is for.
#[derive(Clone, Copy, Debug, PartialEq, Eq)]
#[non_exhaustive]
pub struct ComputeEnvironment {
    available_cores: usize,
    available_ram_bytes: Option<u64>,
    simd_tier: Option<SimdTier>,
}

/// The image that an estimate is for.
#[derive(Clone, Copy, Debug, PartialEq, Eq)]
#[non_exhaustive]
pub struct ImageCharacteristics {
    width: u32,
    height: u32,
    descriptor: PixelDescriptor,
    frame_count: u32,
}

/// How an operation scales across cores: linearly up to a knee, and not beyond.
#[derive(Clone, Copy, Debug, PartialEq, Eq)]
#[non_exhaustive]
pub struct ThreadingInformation {
    parallel: bool,
    max_efficient_threads: Option<u32>,
}

/// The predicted resources of an operation. What is not modelled is absent.
#[derive(Clone, Copy, Debug, PartialEq, Eq)]
#[non_exhaustive]
pub struct ResourceEstimate {
    peak_memory_bytes_est: Option<u64>,
    peak_memory_bytes_max: Option<u64>,
    wall_ms: Option<u64>,
    cpu_ms: Option<u64>,
    threading: Option<ThreadingInformation>,
}

/// The larger of `n` and one.
pub open spec fn at_least_one(n: int) -> int {
    if n < 1 {
        1
    } else {
        n
    }
}

/// `n`, or the largest 64-bit value.
pub open spec fn saturated(n: int) -> u64 {
    if n > u64::MAX {
        u64::MAX
    } else {
        n as u64
    }
}

/// `a + b`, or the largest value.
fn plus(a: u64, b: u64) -> (r: u64)
    ensures
        r == saturated(a + b),
{
    if a > u64::MAX - b {
        u64::MAX
    } else {
        a + b
    }
}

/// `a * b`, or the largest value.
fn times(a: u64, b: u64) -> (r: u64)
    ensures
        r == saturated(a * b),
{
    match a.checked_mul(b) {
        Some(v) => v,
        None => u64::MAX,
    }
}

/// The contents of a [`ComputeEnvironment`].
pub struct EnvironmentView {
    pub cores: usize,
    pub ram_bytes: Option<u64>,
    pub simd_tier: Option<SimdTier>,
}

impl View for ComputeEnvironment {
    type V = EnvironmentView;

    closed spec fn view(&self) -> EnvironmentView {
        EnvironmentView {
            cores: self.available_cores,
            ram_bytes: self.available_ram_bytes,
            simd_tier: self.simd_tier,
        }
    }
}

impl ComputeEnvironment {
    /// One core, and nothing else known.
    #[must_use]
    pub fn new() -> (r: Self)
        ensures
            r@ == (EnvironmentView { cores: 1, ram_bytes: None, simd_tier: None }),
    {
        ComputeEnvironment { available_cores: 1, available_ram_bytes: None, simd_tier: None }
    }

    /// Set the number of cores, at least one.
    #[must_use]
    pub fn with_cores(self, cores: usize) -> (r: Self)
        ensures
            r@ == (EnvironmentView { cores: at_least_one(cores as int) as usize, ..self@ }),
    {
        let available_cores: usize = if cores < 1 {
            1
        } else {
            cores
        };
        ComputeEnvironment { available_cores, ..self }
    }

    /// Set the available memory.
    #[must_use]
    pub fn with_available_ram_bytes(self, bytes: u64) -> (r: Self)
        ensures
            r@ == (EnvironmentView { ram_bytes: Some(bytes), ..self@ }),
    {
        ComputeEnvironment { available_ram_bytes: Some(bytes), ..self }
    }

    /// Set the vector instructions.
    #[must_use]
    pub fn with_simd_tier(self, tier: SimdTier) -> (r: Self)
        ensures
            r@ == (EnvironmentView { simd_tier: Some(tier), ..self@ }),
    {
        ComputeEnvironment { simd_tier: Some(tier), ..self }
    }

    /// Number of cores.
    #[must_use]
    pub fn cores(&self) -> (r: usize)
        ensures
            r == self@.cores,
    {
        self.available_cores
    }

    /// Available memory, if known.
    #[must_use]
    pub fn available_ram_bytes(&self) -> (r: Option<u64>)
        ensures
            r == self@.ram_bytes,
    {
        self.available_ram_bytes
    }

    /// Vector instructions, if known.
    #[must_use]
    pub fn simd_tier(&self) -> (r: Option<SimdTier>)
        ensures
            r == self@.simd_tier,
    {
        self.simd_tier
    }
}

impl Default for ComputeEnvironment {
    fn default() -> (r: Self)
        ensures
            r@ == (EnvironmentView { cores: 1, ram_bytes: None, simd_tier: None }),
    {
        ComputeEnvironment::new()
    }
}

/// The contents of [`ImageCharacteristics`].
pub struct ImageView {
    pub width: u32,
    pub height: u32,
    pub descriptor: PixelDescriptor,
    pub frame_count: u32,
}

impl View for ImageCharacteristics {
    type V = ImageView;

    closed spec fn view(&self) -> ImageView {
        ImageView {
            width: self.width,
            height: self.height,
            descriptor: self.descriptor,
            frame_count: self.frame_count,
        }
    }
}

impl ImageView {
    /// Size of one frame.
    pub open spec fn frame_bytes(self) -> int {
        packed_size(self.width, self.height, self.descriptor)
    }
}

impl ImageCharacteristics {
    /// A still image.
    #[must_use]
    pub fn new(width: u32, height: u32, descriptor: PixelDescriptor) -> (r: Self)
        ensures
            r@ == (ImageView { width, height, descriptor, frame_count: 1 }),
    {
        ImageCharacteristics { width, height, descriptor, frame_count: 1 }
    }

    /// Set the number of frames, at least one.
    #[must_use]
    pub fn with_frame_count(self, frames: u32) -> (r: Self)
        ensures
            r@ == (ImageView { frame_count: at_least_one(frames as int) as u32, ..self@ }),
    {
        let frame_count: u32 = if frames < 1 {
            1
        } else {
            frames
        };
        ImageCharacteristics { frame_count, ..self }
    }

    /// Width in pixels.
    #[must_use]
    pub fn width(&self) -> (r: u32)
        ensures
            r == self@.width,
    {
        self.width
    }

    /// Height in pixels.
    #[must_use]
    pub fn height(&self) -> (r: u32)
        ensures
            r == self@.height,
    {
        self.height
    }

    /// Pixel format.
    #[must_use]
    pub fn descriptor(&self) -> (r: &PixelDescriptor)
        ensures
            *r == self@.descriptor,
    {
        &self.descriptor
    }

    /// Number of frames.
    #[must_use]
    pub fn frame_count(&self) -> (r: u32)
        ensures
            r == self@.frame_count,
    {
        self.frame_count
    }

    /// Number of pixels of one frame.
    #[must_use]
    pub fn pixels(&self) -> (r: u64)
        ensures
            r == area(self@.width, self@.height),
    {
        area_of(self.width, self.height)
    }

    /// Size of one tightly packed frame.
    #[must_use]
    pub fn input_bytes(&self) -> (r: u64)
        requires
            self@.frame_bytes() <= u64::MAX,
        ensures
            r == self@.frame_bytes(),
    {
        packed_size_of(self.width, self.height, self.descriptor)
    }
}

/// The contents of [`ThreadingInformation`].
pub struct ThreadingView {
    pub parallel: bool,
    pub knee: Option<u32>,
}

impl View for ThreadingInformation {
    type V = ThreadingView;

    closed spec fn view(&self) -> ThreadingView {
        ThreadingView { parallel: self.parallel, knee: self.max_efficient_threads }
    }
}

impl ThreadingView {
    /// How many of `cores` do useful work: up to the knee, if there is one, and
    /// at least one.
    pub open spec fn useful(self, cores: int) -> int {
        let n = at_least_one(cores);
        match self.knee {
            Some(k) if at_least_one(k as int) < n => at_least_one(k as int),
            _ => n,
        }
    }
}

impl ThreadingInformation {
    /// An operation on one core.
    #[allow(non_snake_case)]
    pub fn SERIAL() -> (r: Self)
        ensures
            r@ == (ThreadingView { parallel: false, knee: Some(1) }),
    {
        ThreadingInformation { parallel: false, max_efficient_threads: Some(1) }
    }

    /// An operation that scales up to this many threads, at least one.
    #[must_use]
    pub fn parallel(max_efficient_threads: u32) -> (r: Self)
        ensures
            r@ == (ThreadingView {
                parallel: true,
                knee: Some(at_least_one(max_efficient_threads as int) as u32),
            }),
    {
        let knee: u32 = if max_efficient_threads < 1 {
            1
        } else {
            max_efficient_threads
        };
        ThreadingInformation { parallel: true, max_efficient_threads: Some(knee) }
    }

    /// An operation that scales to all cores, as far as is known.
    #[must_use]
    pub fn parallel_unknown_knee() -> (r: Self)
        ensures
            r@ == (ThreadingView { parallel: true, knee: None }),
    {
        ThreadingInformation { parallel: true, max_efficient_threads: None }
    }

    /// Whether more than one core is used.
    #[must_use]
    pub fn is_parallel(&self) -> (r: bool)
        ensures
            r == self@.parallel,
    {
        self.parallel
    }

    /// The number of threads beyond which more do not help, if known.
    #[must_use]
    pub fn max_efficient_threads(&self) -> (r: Option<u32>)
        ensures
            r == self@.knee,
    {
        self.max_efficient_threads
    }

    /// How many of `cores` do useful work.
    #[must_use]
    pub fn effective_threads(&self, cores: usize) -> (r: u64)
        ensures
            r == self@.useful(cores as int),
            r >= 1,
    {
        let n: u64 = if cores < 1 {
            1
        } else {
            cores as u64
        };
        match self.max_efficient_threads {
            Some(knee) => {
                let k: u64 = if knee < 1 {
                    1
                } else {
                    knee as u64
                };
                if k < n {
                    k
                } else {
                    n
                }
            },
            None => n,
        }
    }
}

/// The contents of a [`ResourceEstimate`].
pub struct EstimateView {
    pub peak_est: Option<u64>,
    pub peak_max: Option<u64>,
    pub wall_ms: Option<u64>,
    pub cpu_ms: Option<u64>,
    pub threading: Option<ThreadingView>,
}

impl View for ResourceEstimate {
    type V = EstimateView;

    closed spec fn view(&self) -> EstimateView {
        EstimateView {
            peak_est: self.peak_memory_bytes_est,
            peak_max: self.peak_memory_bytes_max,
            wall_ms: self.wall_ms,
            cpu_ms: self.cpu_ms,
            threading: match self.threading {
                Some(t) => Some(t@),
                None => None,
            },
        }
    }
}

impl EstimateView {
    /// Nothing is modelled.
    pub open spec fn blank() -> EstimateView {
        EstimateView {
            peak_est: None,
            peak_max: None,
            wall_ms: None,
            cpu_ms: None,
            threading: None,
        }
    }

    /// The estimate of a single-threaded time on `cores`.
    pub open spec fn on_cores(self, cores: int) -> EstimateView {
        match (self.wall_ms, self.threading) {
            (Some(wall), Some(t)) => EstimateView {
                wall_ms: Some((wall as int / t.useful(cores)) as u64),
                ..self
            },
            _ => self,
        }
    }

    /// The estimate for an operation without a model of its own: some memory and
    /// a multiple of the input, 50 megapixels a second, on one core.
    pub open spec fn without_model(image: ImageView) -> EstimateView {
        let input = saturated(image.frame_bytes() * image.frame_count);
        let wall = saturated(area(image.width, image.height) * image.frame_count) / 50_000;
        EstimateView {
            peak_est: Some(saturated(0x100_0000 + saturated(input * 3))),
            peak_max: Some(saturated(0x100_0000 + saturated(input * 8))),
            wall_ms: Some(wall),
            cpu_ms: Some(wall),
            threading: Some(ThreadingView { parallel: false, knee: Some(1) }),
        }
    }
}

impl ResourceEstimate {
    /// An estimate of nothing.
    #[must_use]
    pub fn unknown() -> (r: Self)
        ensures
            r@ == EstimateView::blank(),
    {
        ResourceEstimate {
            peak_memory_bytes_est: None,
            peak_memory_bytes_max: None,
            wall_ms: None,
            cpu_ms: None,
            threading: None,
        }
    }

    /// An estimate of typical peak memory and wall time.
    #[must_use]
    pub fn new(peak_memory_bytes_est: u64, wall_ms: u64) -> (r: Self)
        ensures
            r@ == (EstimateView {
                peak_est: Some(peak_memory_bytes_est),
                wall_ms: Some(wall_ms),
                ..EstimateView::blank()
            }),
    {
        ResourceEstimate {
            peak_memory_bytes_est: Some(peak_memory_bytes_est),
            peak_memory_bytes_max: None,
            wall_ms: Some(wall_ms),
            cpu_ms: None,
            threading: None,
        }
    }

    /// Set the upper bound on peak memory.
    #[must_use]
    pub fn with_peak_max(self, max: u64) -> (r: Self)
        ensures
            r@ == (EstimateView { peak_max: Some(max), ..self@ }),
    {
        ResourceEstimate { peak_memory_bytes_max: Some(max), ..self }
    }

    /// Set the processor time, summed over threads.
    #[must_use]
    pub fn with_cpu_ms(self, cpu_ms: u64) -> (r: Self)
        ensures
            r@ == (EstimateView { cpu_ms: Some(cpu_ms), ..self@ }),
    {
        ResourceEstimate { cpu_ms: Some(cpu_ms), ..self }
    }

    /// Set how the operation scales.
    #[must_use]
    pub fn with_threading(self, threading: ThreadingInformation) -> (r: Self)
        ensures
            r@ == (EstimateView { threading: Some(threading@), ..self@ }),
    {
        ResourceEstimate { threading: Some(threading), ..self }
    }

    /// Typical peak memory.
    #[must_use]
    pub fn peak_memory_bytes_est(&self) -> (r: Option<u64>)
        ensures
            r == self@.peak_est,
    {
        self.peak_memory_bytes_est
    }

    /// Upper bound on peak memory.
    #[must_use]
    pub fn peak_memory_bytes_max(&self) -> (r: Option<u64>)
        ensures
            r == self@.peak_max,
    {
        self.peak_memory_bytes_max
    }

    /// Wall time.
    #[must_use]
    pub fn wall_ms(&self) -> (r: Option<u64>)
        ensures
            r == self@.wall_ms,
    {
        self.wall_ms
    }

    /// Processor time, summed over threads.
    #[must_use]
    pub fn cpu_ms(&self) -> (r: Option<u64>)
        ensures
            r == self@.cpu_ms,
    {
        self.cpu_ms
    }

    /// How the operation scales.
    #[must_use]
    pub fn threading(&self) -> (r: Option<ThreadingInformation>)
        ensures
            r is Some <==> self@.threading is Some,
            r matches Some(t) ==> self@.threading == Some(t@),
    {
        self.threading
    }

    /// The estimate on `cores` cores: the wall time divided by the threads that
    /// do useful work, all else unchanged.
    #[must_use]
    pub fn at_cores(&self, cores: usize) -> (r: Self)
        ensures
            r@ == self@.on_cores(cores as int),
    {
        match (self.wall_ms, self.threading) {
            (Some(wall), Some(threading)) => {
                let n: u64 = threading.effective_threads(cores);
                assert(0 <= wall as int / n as int <= wall) by (nonlinear_arith)
                    requires
                        n >= 1,
                ;
                ResourceEstimate { wall_ms: Some(wall / n), ..*self }
            },
            _ => *self,
        }
    }

    /// The estimate for an operation without a model of its own.
    #[must_use]
    pub fn conservative(image: &ImageCharacteristics) -> (r: Self)
        requires
            image@.frame_bytes() <= u64::MAX,
        ensures
            r@ == EstimateView::without_model(image@),
    {
        let frames: u64 = image.frame_count() as u64;
        let input: u64 = times(image.input_bytes(), frames);
        let fixed: u64 = 0x100_0000;
        let typical: u64 = plus(fixed, times(input, 3));
        let wall_ms: u64 = times(image.pixels(), frames) / 50_000;
        ResourceEstimate::new(typical, wall_ms).with_peak_max(
            plus(fixed, times(input, 8)),
        ).with_cpu_ms(wall_ms).with_threading(ThreadingInformation::SERIAL())
    }
}

// ── Laws ────────────────────────────────────────────────────────────────────

/// More cores never make an operation slower, and change only its wall time.
pub proof fn law_more_cores_never_hurt(e: EstimateView, few: int, many: int)
    requires
        few <= many,
    ensures
        e.on_cores(many) == (EstimateView { wall_ms: e.on_cores(many).wall_ms, ..e }),
        e.on_cores(few).wall_ms matches Some(a) ==> e.on_cores(many).wall_ms matches Some(b) && b
            <= a,
{
    if let (Some(wall), Some(t)) = (e.wall_ms, e.threading) {
        let m = t.useful(few);
        let n = t.useful(many);
        assert(1 <= m <= n);
        assert(0 <= wall as int / n <= wall as int / m <= wall) by (nonlinear_arith)
            requires
                1 <= m <= n,
                wall >= 0,
        ;
    }
}

/// Beyond the knee more cores change nothing.
pub proof fn law_scaling_ends_at_the_knee(e: EstimateView, t: ThreadingView, knee: u32, cores: int)
    requires
        e.threading == Some(t),
        t.knee == Some(knee),
        cores >= knee,
    ensures
        e.on_cores(cores) == e.on_cores(knee as int),
{
}

/// A serial operation takes the same time on any number of cores.
pub proof fn law_serial_does_not_scale(e: EstimateView, cores: int)
    requires
        e.threading matches Some(t) && t.knee == Some(1u32),
    ensures
        e.on_cores(cores) == e,
{
    if let Some(wall) = e.wall_ms {
        assert(wall as int / 1 == wall) by (nonlinear_arith);
    }
}

/// The estimate without a model bounds itself: the typical peak is at most the
/// bound, and holds the input.
pub proof fn law_conservative_holds_the_input(image: ImageView)
    requires
        image.frame_bytes() <= u64::MAX,
    ensures
        ({
            let e = EstimateView::without_model(image);
            &&& e.peak_est->0 <= e.peak_max->0
            &&& e.peak_est->0 >= saturated(image.frame_bytes() * image.frame_count)
        }),
{
}

/// On `n` useful cores an operation takes its time divided by `n`, rounded down:
/// all of the cores without a knee, as many as the knee with one. A count or a
/// knee of zero is one.
pub proof fn law_wall_time_is_shared(e: EstimateView, t: ThreadingView, wall: u64, cores: int, n: int)
    requires
        e.wall_ms == Some(wall),
        e.threading == Some(t),
        n >= 1,
        t.knee is None ==> n == cores || cores < 1 && n == 1,
        t.knee matches Some(k) ==> ({
            ||| n == k && k <= cores
            ||| n == cores && cores <= k
            ||| n == 1 && (k == 0 || cores < 1)
        }),
    ensures
        e.on_cores(cores).wall_ms matches Some(q) && q * n <= wall < (q + 1) * n,
        e.on_cores(cores).cpu_ms == e.cpu_ms,
        e.on_cores(cores).peak_est == e.peak_est,
        e.on_cores(cores).peak_max == e.peak_max,
        e.on_cores(cores).threading == e.threading,
{
    assert(t.useful(cores) == n);
    let q = wall as int / n;
    assert(0 <= q <= wall && q * n <= wall < (q + 1) * n) by (nonlinear_arith)
        requires
            q == wall as int / n,
            n >= 1,
            wall >= 0,
    ;
}

/// What is not known does not scale, and one core takes the time as it is.
pub proof fn law_one_core_takes_the_time(e: EstimateView, cores: int)
    ensures
        e.wall_ms is None || e.threading is None ==> e.on_cores(cores) == e,
        e.on_cores(1) == e,
        e.on_cores(0) == e,
{
    if let Some(wall) = e.wall_ms {
        assert(wall as int / 1 == wall) by (nonlinear_arith);
    }
}

/// Without a model an operation is taken to need sixteen mebibytes and three times
/// its input, eight times at most, and a millisecond for every 50000 pixels, all
/// of it on one core.
pub proof fn law_conservative_figures(image: ImageView)
    requires
        image.frame_bytes() * image.frame_count * 8 + 16777216 <= u64::MAX,
        area(image.width, image.height) * image.frame_count <= u64::MAX,
        0 <= image.frame_bytes(),
    ensures
        ({
            let e = EstimateView::without_model(image);
            let bytes = image.width * image.height * image.descriptor.pixel_size()
                * image.frame_count;
            let pixels = image.width * image.height * image.frame_count;
            &&& e.peak_est matches Some(n) && n == 16777216 + 3 * bytes
            &&& e.peak_max matches Some(n) && n == 16777216 + 8 * bytes
            &&& e.wall_ms matches Some(n) && n * 50000 <= pixels < (n + 1) * 50000
            &&& e.cpu_ms == e.wall_ms
            &&& e.threading matches Some(t) && !t.parallel && t.knee == Some(1u32)
        }),
{
    let bytes = image.frame_bytes() * image.frame_count;
    assert(0 <= bytes) by (nonlinear_arith)
        requires
            0 <= image.frame_bytes(),
            bytes == image.frame_bytes() * image.frame_count,
            0 <= image.frame_count,
    ;
    let pixels = area(image.width, image.height) * image.frame_count;
    assert(0 <= pixels) by (nonlinear_arith)
        requires
            pixels == image.width * image.height * image.frame_count,
            0 <= image.width,
            0 <= image.height,
            0 <= image.frame_count,
    ;
}

/// Figures past 64 bits stay at the largest there is, and others are as they are;
/// a count is never below one.
pub proof fn law_figures_saturate(n: int)
    ensures
        0 <= n <= u64::MAX ==> saturated(n) == n,
        n >= 0xFFFF_FFFF_FFFF_FFFF ==> saturated(n) == 0xFFFF_FFFF_FFFF_FFFFu64,
        n >= 1 ==> at_least_one(n) == n,
        n <= 1 ==> at_least_one(n) == 1,
{
}

/// An estimate of nothing says nothing.
pub proof fn law_blank_says_nothing()
    ensures
        EstimateView::blank().peak_est is None,
        EstimateView::blank().peak_max is None,
        EstimateView::blank().wall_ms is None,
        EstimateView::blank().cpu_ms is None,
        EstimateView::blank().threading is None,
{
}

} // verus!
