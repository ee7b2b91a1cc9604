//! Which codec a set picks.
use zencodec::error::category::PolicyKind;
use zencodec::error::phrase::Phrase;
use zencodec::estimate::{ComputeEnvironment, ImageCharacteristics, ResourceEstimate};
use zencodec::format::builtins::{jpeg, png};
use zencodec::format::{Detect, ImageFormat, ImageFormatDefinition};
use zencodec::info::ImageInfo;
use zencodec::pixels::PixelDescriptor;
use zencodec::policy::{DecodePolicy, EncodePolicy};
use zencodec::set::{CodecSet, CodecSetError, DecoderConfig, EncoderConfig};

/// A decoder that is told by a number.
struct Dec {
    formats: &'static [ImageFormat],
    supported: &'static [PixelDescriptor],
    number: u64,
}

impl DecoderConfig for Dec {
    fn formats(&self) -> &'static [ImageFormat] {
        self.formats
    }

    fn supported_descriptors(&self) -> &'static [PixelDescriptor] {
        self.supported
    }

    fn estimate_decode_resources(
        &self,
        image: &ImageCharacteristics,
        compute: &ComputeEnvironment,
    ) -> ResourceEstimate {
        ResourceEstimate::new(self.number, image.input_bytes() / compute.cores() as u64)
    }
}

/// An encoder that is told by a number.
struct Enc(ImageFormat, u64);

impl EncoderConfig for Enc {
    fn format(&self) -> ImageFormat {
        self.0
    }

    fn estimate_encode_resources(
        &self,
        image: &ImageCharacteristics,
        _compute: &ComputeEnvironment,
    ) -> ResourceEstimate {
        ResourceEstimate::new(self.1, image.input_bytes())
    }
}

type Codecs = CodecSet<Box<dyn DecoderConfig>, Box<dyn EncoderConfig>, u32, u32>;

type Failure = CodecSetError<u32>;

const JPEG_BYTES: [u8; 4] = [0xFF, 0xD8, 0xFF, 0xE0];

fn dec(formats: &[ImageFormat], number: u64) -> Box<dyn DecoderConfig> {
    let formats: &'static [ImageFormat] = Box::leak(formats.to_vec().into_boxed_slice());
    Box::new(Dec { formats, supported: &[], number })
}

fn enc(format: ImageFormat, number: u64) -> Box<dyn EncoderConfig> {
    Box::new(Enc(format, number))
}

fn assert_send_sync_static<T: Send + Sync + 'static>() {}

#[test]
fn codec_set_is_send_sync_static() {
    assert_send_sync_static::<CodecSet<u8, u8, u8, u8>>();
    assert_send_sync_static::<CodecSetError<u8>>();
}

#[test]
fn empty_set_detects_nothing() {
    let set = Codecs::new();
    // Valid JPEG magic, but no decoder registered for it.
    assert!(set.detect(&[0xFF, 0xD8, 0xFF, 0xE0]).is_none());
    assert!(!set.can_decode(ImageFormat::Jpeg));
    assert!(!set.can_encode(ImageFormat::Jpeg));
    assert_eq!(set.decodable_formats().len(), 0);
    assert_eq!(set.encodable_formats().len(), 0);
}

#[test]
fn empty_set_decode_is_unrecognized() {
    let set = Codecs::new();
    match set.decode_job_for::<u32>(&[0xFF, 0xD8, 0xFF, 0xE0]) {
        Err(CodecSetError::UnrecognizedFormat) => {}
        _ => panic!("expected UnrecognizedFormat"),
    }
}

#[test]
fn decode_as_without_decoder_is_no_decoder() {
    let set = Codecs::new();
    match set.decode_job::<u32>(ImageFormat::Jpeg) {
        Err(CodecSetError::NoDecoder(ImageFormat::Jpeg)) => {}
        _ => panic!("expected NoDecoder(Jpeg)"),
    }
}

#[test]
fn encode_without_encoder_is_no_encoder() {
    let set = Codecs::new();
    match set.encode_job::<u32>(ImageFormat::Png) {
        Err(CodecSetError::NoEncoder(ImageFormat::Png)) => {}
        _ => panic!("expected NoEncoder(Png)"),
    }
}

#[test]
fn empty_set_clone_and_debug() {
    let set: CodecSet<u8, u8, u32, u32> = CodecSet::new().with_limits(7).clone();
    let dbg = format!("{set:?}");
    assert!(dbg.contains("CodecSet"));
}

#[test]
fn error_display_names_format() {
    let msg = CodecSetError::<PolicyKind>::NoDecoder(ImageFormat::Jpeg)
        .phrase();
    assert!(msg.contains("JPEG"), "{msg}");
    let msg = CodecSetError::<PolicyKind>::NoEncoder(ImageFormat::WebP)
        .phrase();
    assert!(msg.contains("WebP"), "{msg}");
}

#[test]
fn first_registered_codec_wins() {
    let set = Codecs::new()
        .with_decoder(dec(&[ImageFormat::Png], 1))
        .with_decoder(dec(&[ImageFormat::Jpeg, ImageFormat::Png], 2))
        .with_encoder(enc(ImageFormat::Png, 3))
        .with_encoder(enc(ImageFormat::Png, 4));
    let image = ImageCharacteristics::new(2, 2, PixelDescriptor::RGB8_SRGB());
    let here = ComputeEnvironment::new();
    let peak = |f| set.estimate_decode::<u32>(f, &image, &here).ok().unwrap();
    assert_eq!(peak(ImageFormat::Png).peak_memory_bytes_est(), Some(1));
    assert_eq!(peak(ImageFormat::Jpeg).peak_memory_bytes_est(), Some(2));
    let e = set.estimate_encode::<u32>(ImageFormat::Png, &image, &here).ok().unwrap();
    assert_eq!((e.peak_memory_bytes_est(), e.wall_ms()), (Some(3), Some(12)));
    assert!(set.decoder_for(ImageFormat::Gif).is_none());
    assert!(set.encoder_for(ImageFormat::Png).is_some());
    assert_eq!(set.decodable_formats().len(), 3);
    assert_eq!(set.encodable_formats().len(), 2);
}

#[test]
fn detection_ignores_registration_order() {
    // One input that two built-in tests accept: DNG is asked before TIFF.
    let mut tiff = vec![0u8; 22];
    tiff[..4].copy_from_slice(&[0x49, 0x49, 42, 0]);
    tiff[4] = 8;
    tiff[8] = 1;
    tiff[10..12].copy_from_slice(&[0x12, 0xC6]);
    let set = Codecs::new()
        .with_decoder(dec(&[ImageFormat::Tiff], 1))
        .with_decoder(dec(&[ImageFormat::Dng], 2));
    assert!(set.detect(&tiff) == Some(ImageFormat::Dng));
    let only_tiff = Codecs::new().with_decoder(dec(&[ImageFormat::Tiff], 1));
    assert!(only_tiff.detect(&tiff) == Some(ImageFormat::Tiff));
}

struct Starts(&'static [u8]);

impl Detect for Starts {
    fn detect(&self, data: &[u8]) -> bool {
        data.starts_with(self.0)
    }
}

fn custom(name: &'static str, magic: &'static [u8]) -> ImageFormat {
    let test: &'static Starts = Box::leak(Box::new(Starts(magic)));
    let def: &'static ImageFormatDefinition = Box::leak(Box::new(ImageFormatDefinition::new(
        name, None, name, "x", &["x"], "image/x", &["image/x"], false, false, false, false, 4, test,
    )));
    def.to_image_format()
}

#[test]
fn custom_formats_come_after_builtin_ones() {
    let broad = custom("broad", &[0xFF]);
    let set = Codecs::new()
        .with_decoder(dec(&[broad], 1))
        .with_decoder(dec(&[jpeg().to_image_format()], 2));
    assert!(set.detect(&JPEG_BYTES) == Some(ImageFormat::Jpeg));
    assert!(set.detect(&[0xFF, 0x00]) == Some(broad));
    assert!(set.detect(&[0x00]).is_none());
    assert!(set.can_decode(broad));
    assert!(!set.can_decode(png().to_image_format()));
}

#[test]
fn plans_carry_the_defaults() {
    let set = Codecs::new()
        .with_decoder(dec(&[ImageFormat::Jpeg], 1))
        .with_encoder(enc(ImageFormat::Jpeg, 2))
        .with_limits(11)
        .with_stop(12)
        .with_decode_policy(DecodePolicy::strict())
        .with_encode_policy(EncodePolicy::strip_all());
    let (format, plan) = set.decode_job_for::<u32>(&JPEG_BYTES).ok().unwrap();
    assert!(format == ImageFormat::Jpeg);
    assert_eq!((plan.limits, plan.stop), (Some(&11), Some(&12)));
    assert_eq!(plan.policy, Some(DecodePolicy::strict()));
    let plan = set.encode_job::<u32>(ImageFormat::Jpeg).ok().unwrap();
    assert_eq!((plan.limits, plan.stop), (Some(&11), Some(&12)));
    assert_eq!(plan.policy, Some(EncodePolicy::strip_all()));
    let tuned = set.encode_job_with::<u32, &str>(ImageFormat::Jpeg, "high").ok().unwrap();
    assert_eq!(tuned.fidelity, "high");
    assert!(tuned.job.encoder.format() == ImageFormat::Jpeg);
    assert!(matches!(
        set.encode_job_with::<u32, &str>(ImageFormat::Gif, "high"),
        Err(Failure::NoEncoder(ImageFormat::Gif))
    ));
    let bare = Codecs::default().with_decoder(dec(&[ImageFormat::Jpeg], 1));
    let plan = bare.decode_job::<u32>(ImageFormat::Jpeg).ok().unwrap();
    assert_eq!((plan.limits, plan.stop, plan.policy), (None, None, None));
}

#[test]
fn estimates_use_the_native_pixel_format() {
    let wide: &'static [PixelDescriptor] = Box::leak(Box::new([PixelDescriptor::RGBA8_SRGB()]));
    let native: Box<dyn DecoderConfig> =
        Box::new(Dec { formats: &[ImageFormat::Png], supported: wide, number: 1 });
    let set = Codecs::new().with_decoder(native).with_decoder(dec(&[ImageFormat::Jpeg], 2));
    let here = ComputeEnvironment::new().with_cores(2);
    let wall = |f: ImageFormat, alpha: bool| {
        let info = ImageInfo::new(10, 10, f).with_alpha(alpha);
        set.estimate_decode_of::<u32>(f, &info, &here).ok().unwrap().wall_ms()
    };
    assert_eq!(wall(ImageFormat::Png, false), Some(200));
    assert_eq!(wall(ImageFormat::Jpeg, false), Some(150));
    assert_eq!(wall(ImageFormat::Jpeg, true), Some(200));
    let info = ImageInfo::new(1, 1, ImageFormat::Gif);
    assert!(matches!(
        set.estimate_decode_of::<u32>(ImageFormat::Gif, &info, &here),
        Err(Failure::NoDecoder(ImageFormat::Gif))
    ));
    let set = set.with_encoder(enc(ImageFormat::Gif, 9));
    let d = PixelDescriptor::RGB8_SRGB();
    let e = set.estimate_encode_of::<u32>(ImageFormat::Gif, 5, 4, d, &here).ok().unwrap();
    assert_eq!(e.wall_ms(), Some(60));
}

#[test]
fn errors_say_what_is_missing() {
    assert_eq!(
        CodecSetError::<PolicyKind>::UnrecognizedFormat.phrase(),
        "no registered decoder's format matched the input bytes"
    );
    assert_eq!(
        CodecSetError::<PolicyKind>::NoDecoder(ImageFormat::Gif).phrase(),
        "no decoder registered for GIF"
    );
    assert_eq!(
        CodecSetError::<PolicyKind>::NoEncoder(custom("odd", &[1])).phrase(),
        "no encoder registered for odd"
    );
    let said = PolicyKind::Decode.phrase();
    assert_eq!(CodecSetError::Codec(PolicyKind::Decode).phrase(), format!("codec error: {said}"));
}
