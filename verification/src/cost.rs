//! What a decode will produce, and what decodes and encodes cost.
use crate::orientation::Orientation;
use crate::pixels::PixelDescriptor;
use vstd::prelude::*;

verus! {

/// The predicted output of a decode.
#[derive(Clone, Debug, PartialEq, Eq)]
#[non_exhaustive]
pub struct OutputInfo {
    /// Width of the output.
    pub width: u32,
    /// Height of the output.
    pub height: u32,
    /// Pixel format that the decoder produces natively.
    pub native_format: PixelDescriptor,
    /// Whether the output has an alpha channel.
    pub has_alpha: bool,
    /// Orientation that the decoder applies; with the identity the caller
    /// applies the image's own.
    pub orientation_applied: Orientation,
    /// Crop that the decoder applies: x, y, width, height.
    pub crop_applied: Option<[u32; 4]>,
}

/// The estimated cost of a decode.
#[derive(Clone, Copy, Debug, PartialEq, Eq, Structural)]
#[non_exhaustive]
pub struct DecodeCost {
    /// Size of the output buffer.
    pub output_bytes: u64,
    /// Pixels in the output.
    pub pixel_count: u64,
    /// Peak memory, if it can be estimated.
    pub peak_memory: Option<u64>,
}

/// The estimated cost of an encode.
#[derive(Clone, Copy, Debug, PartialEq, Eq, Structural)]
#[non_exhaustive]
pub struct EncodeCost {
    /// Size of the input buffer.
    pub input_bytes: u64,
    /// Pixels in the input.
    pub pixel_count: u64,
    /// Peak memory, if it can be estimated.
    pub peak_memory: Option<u64>,
}

/// Number of pixels of an image.
pub open spec fn area(width: u32, height: u32) -> int {
    width * height
}

/// Size of a tightly packed image.
pub open spec fn packed_size(width: u32, height: u32, format: PixelDescriptor) -> int {
    area(width, height) * format.pixel_size()
}

/// Number of pixels of an image.
pub fn area_of(width: u32, height: u32) -> (r: u64)
    ensures
        r == area(width, height),
{
    assert(width as u64 * height as u64 <= 0xFFFF_FFFFu64 * 0xFFFF_FFFFu64) by (nonlinear_arith)
        requires
            width <= 0xFFFF_FFFFu32,
            height <= 0xFFFF_FFFFu32,
    ;
    width as u64 * height as u64
}

/// Size of a tightly packed image.
pub fn packed_size_of(width: u32, height: u32, format: PixelDescriptor) -> (r: u64)
    requires
        packed_size(width, height, format) <= u64::MAX,
    ensures
        r == packed_size(width, height, format),
{
    let pixels: u64 = area_of(width, height);
    let size: u64 = format.bytes_per_pixel() as u64;
    assert(0 <= pixels * size) by (nonlinear_arith);
    pixels * size
}

impl OutputInfo {
    /// The output of decoding the full frame, without any hint applied.
    pub fn full_decode(width: u32, height: u32, native_format: PixelDescriptor) -> (r: Self)
        ensures
            r.width == width,
            r.height == height,
            r.native_format == native_format,
            r.has_alpha == native_format.carries_alpha(),
            r.orientation_applied == Orientation::Identity,
            r.crop_applied is None,
    {
        OutputInfo {
            width,
            height,
            native_format,
            has_alpha: native_format.has_alpha(),
            orientation_applied: Orientation::Identity,
            crop_applied: None,
        }
    }

    /// Set whether the output has an alpha channel.
    pub fn with_alpha(self, has_alpha: bool) -> (r: Self)
        ensures
            r == (OutputInfo { has_alpha, ..self }),
    {
        OutputInfo { has_alpha, ..self }
    }

    /// Set the orientation that the decoder applies.
    pub fn with_orientation_applied(self, o: Orientation) -> (r: Self)
        ensures
            r == (OutputInfo { orientation_applied: o, ..self }),
    {
        OutputInfo { orientation_applied: o, ..self }
    }

    /// Set the crop that the decoder applies.
    pub fn with_crop_applied(self, rect: [u32; 4]) -> (r: Self)
        ensures
            r == (OutputInfo { crop_applied: Some(rect), ..self }),
    {
        OutputInfo { crop_applied: Some(rect), ..self }
    }

    /// Size of the output in its native format, tightly packed.
    pub fn buffer_size(&self) -> (r: u64)
        requires
            packed_size(self.width, self.height, self.native_format) <= u64::MAX,
        ensures
            r == packed_size(self.width, self.height, self.native_format),
    {
        packed_size_of(self.width, self.height, self.native_format)
    }

    /// Number of pixels.
    pub fn pixel_count(&self) -> (r: u64)
        ensures
            r == area(self.width, self.height),
    {
        area_of(self.width, self.height)
    }
}

impl DecodeCost {
    /// A cost from raw values.
    pub fn new(output_bytes: u64, pixel_count: u64, peak_memory: Option<u64>) -> (r: Self)
        ensures
            r == (DecodeCost { output_bytes, pixel_count, peak_memory }),
    {
        DecodeCost { output_bytes, pixel_count, peak_memory }
    }

    /// The cost of an output, its peak memory left open.
    pub fn from_output_info(info: &OutputInfo) -> (r: Self)
        requires
            packed_size(info.width, info.height, info.native_format) <= u64::MAX,
        ensures
            r.output_bytes == packed_size(info.width, info.height, info.native_format),
            r.pixel_count == area(info.width, info.height),
            r.peak_memory is None,
    {
        DecodeCost {
            output_bytes: info.buffer_size(),
            pixel_count: info.pixel_count(),
            peak_memory: None,
        }
    }

    /// Set the peak memory.
    pub fn with_peak_memory(self, bytes: u64) -> (r: Self)
        ensures
            r == (DecodeCost { peak_memory: Some(bytes), ..self }),
    {
        DecodeCost { peak_memory: Some(bytes), ..self }
    }
}

impl EncodeCost {
    /// A cost from raw values.
    pub fn new(input_bytes: u64, pixel_count: u64, peak_memory: Option<u64>) -> (r: Self)
        ensures
            r == (EncodeCost { input_bytes, pixel_count, peak_memory }),
    {
        EncodeCost { input_bytes, pixel_count, peak_memory }
    }

    /// The cost of an input, its peak memory left open.
    pub fn for_input(width: u32, height: u32, descriptor: PixelDescriptor) -> (r: Self)
        requires
            packed_size(width, height, descriptor) <= u64::MAX,
        ensures
            r.input_bytes == packed_size(width, height, descriptor),
            r.pixel_count == area(width, height),
            r.peak_memory is None,
    {
        EncodeCost {
            input_bytes: packed_size_of(width, height, descriptor),
            pixel_count: area_of(width, height),
            peak_memory: None,
        }
    }

    /// Set the peak memory.
    pub fn with_peak_memory(self, bytes: u64) -> (r: Self)
        ensures
            r == (EncodeCost { peak_memory: Some(bytes), ..self }),
    {
        EncodeCost { peak_memory: Some(bytes), ..self }
    }
}

// ── Laws ────────────────────────────────────────────────────────────────────

/// Sizes are those of a rectangle: width times height pixels, each of its size;
/// turned by a right angle an image is as large, and an empty one takes nothing.
pub proof fn law_sizes_of_a_rectangle(width: u32, height: u32, format: PixelDescriptor)
    ensures
        area(width, height) == width * height,
        area(width, height) == area(height, width),
        packed_size(width, height, format) == width * height * format.pixel_size(),
        packed_size(width, height, format) == packed_size(height, width, format),
        packed_size(0, height, format) == 0,
{
    assert(width * height == height * width) by (nonlinear_arith);
    assert(0 * format.pixel_size() == 0) by (nonlinear_arith);
    assert(0 * height == 0) by (nonlinear_arith);
}

/// Images stacked on each other take what they take apart.
pub proof fn law_sizes_add_up(width: u32, top: u32, bottom: u32, both: u32, format: PixelDescriptor)
    requires
        both == top + bottom,
    ensures
        area(width, both) == area(width, top) + area(width, bottom),
        packed_size(width, both, format) == packed_size(width, top, format) + packed_size(
            width,
            bottom,
            format,
        ),
{
    let size = format.pixel_size();
    assert(width * (top + bottom) == width * top + width * bottom) by (nonlinear_arith);
    assert((width * top + width * bottom) * size == width * top * size + width * bottom * size)
        by (nonlinear_arith);
}

} // verus!
