//! Costs of single operations.
use zencodec::cost::{DecodeCost, EncodeCost, OutputInfo};
use zencodec::pixels::PixelDescriptor;
use zencodec::Orientation;

#[test]
fn decode_cost_from_output_info() {
    let info = OutputInfo::full_decode(10, 5, PixelDescriptor::RGBA8_SRGB());
    let cost = DecodeCost::from_output_info(&info);
    assert_eq!(cost.output_bytes, 200); // 10*5*4
    assert_eq!(cost.pixel_count, 50); // 10*5
    assert_eq!(cost.peak_memory, None);
}

#[test]
fn decode_cost_with_peak_memory() {
    let info = OutputInfo::full_decode(10, 5, PixelDescriptor::RGBA8_SRGB());
    let cost = DecodeCost::from_output_info(&info).with_peak_memory(400);
    assert_eq!(cost.output_bytes, 200);
    assert_eq!(cost.peak_memory, Some(400));
}

#[test]
fn encode_cost_for_input() {
    let cost = EncodeCost::for_input(10, 5, PixelDescriptor::RGB8_SRGB());
    assert_eq!(cost.input_bytes, 150); // 10*5*3
    assert_eq!(cost.pixel_count, 50);
    assert_eq!(cost.peak_memory, None);
}

#[test]
fn encode_cost_with_peak_memory() {
    let cost = EncodeCost::for_input(10, 5, PixelDescriptor::RGB8_SRGB()).with_peak_memory(450);
    assert_eq!(cost.input_bytes, 150);
    assert_eq!(cost.peak_memory, Some(450));
}

#[test]
fn output_info_describes_the_output() {
    let info = OutputInfo::full_decode(4, 3, PixelDescriptor::RGB8_SRGB())
        .with_alpha(true)
        .with_orientation_applied(Orientation::Rotate90)
        .with_crop_applied([1, 2, 3, 4]);
    assert_eq!(info.buffer_size(), 36);
    assert_eq!(info.pixel_count(), 12);
    assert!(info.has_alpha);
    assert_eq!(info.orientation_applied, Orientation::Rotate90);
    assert_eq!(info.crop_applied, Some([1, 2, 3, 4]));
}
