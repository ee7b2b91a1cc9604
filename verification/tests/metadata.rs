//! Metadata and what of it is embedded.
use zencodec::cicp::{Cicp, ColorPrimaries, ContentLightLevel, TransferFunction};
use zencodec::exif::{Exif, ExifPolicy, Retention};
use zencodec::format::ImageFormat;
use zencodec::helpers::parse_exif_orientation;
use zencodec::info::ImageInfo;
use zencodec::metadata::{IccRetention, Metadata, MetadataFields, MetadataPolicy};
use zencodec::Orientation;

#[test]
fn metadata_roundtrip() {
    let info = ImageInfo::new(100, 200, ImageFormat::Jpeg)
        .with_icc_profile(vec![1, 2, 3])
        .with_exif(vec![4, 5])
        .with_cicp(Cicp::SRGB())
        .with_content_light_level(ContentLightLevel {
            max_content_light_level: 1000,
            max_frame_average_light_level: 400,
        });
    let meta = info.metadata();
    assert_eq!(meta.icc_profile.as_deref(), Some([1, 2, 3].as_slice()));
    assert_eq!(meta.exif.as_deref(), Some([4, 5].as_slice()));
    assert!(meta.xmp.is_none());
    assert_eq!(meta.cicp, Some(Cicp::SRGB()));
    assert_eq!(
        meta.content_light_level.unwrap().max_content_light_level,
        1000
    );
    assert!(meta.mastering_display.is_none());
    assert!(!meta.is_empty());
}

#[test]
fn metadata_empty() {
    let meta = Metadata::none();
    assert!(meta.is_empty());
}

#[test]
fn metadata_with_cicp_not_empty() {
    let meta = Metadata::none().with_cicp(Cicp::SRGB());
    assert!(!meta.is_empty());
}

#[test]
fn metadata_with_hdr_not_empty() {
    let meta = Metadata::none().with_content_light_level(ContentLightLevel {
        max_content_light_level: 1000,
        max_frame_average_light_level: 400,
    });
    assert!(!meta.is_empty());
}

#[test]
fn metadata_orientation_roundtrip() {
    let info = ImageInfo::new(100, 200, ImageFormat::Jpeg)
        .with_orientation(Orientation::Rotate90);
    let meta = info.metadata();
    assert_eq!(meta.orientation, Orientation::Rotate90);
}

#[test]
fn metadata_orientation_default_is_normal() {
    let meta = Metadata::none();
    assert_eq!(meta.orientation, Orientation::Identity);
}

#[test]
fn metadata_with_orientation_builder() {
    let meta = Metadata::none().with_orientation(Orientation::Rotate270);
    assert_eq!(meta.orientation, Orientation::Rotate270);
}

#[test]
fn metadata_orientation_not_empty() {
    let meta = Metadata::none().with_orientation(Orientation::Rotate90);
    assert!(!meta.is_empty());
}

#[test]
fn metadata_identity_orientation_is_empty() {
    let meta = Metadata::none().with_orientation(Orientation::Identity);
    assert!(meta.is_empty());
}

#[test]
fn metadata_transfer_function() {
    let meta = Metadata::none().with_cicp(Cicp::SRGB());
    assert_eq!(meta.transfer_function(), TransferFunction::Srgb);

    let meta = Metadata::none();
    assert_eq!(meta.transfer_function(), TransferFunction::Unknown);
}

#[test]
fn metadata_builder() {
    let meta = Metadata::none()
        .with_icc(vec![1, 2, 3])
        .with_exif(vec![4, 5])
        .with_cicp(Cicp::SRGB())
        .with_orientation(Orientation::Rotate90);
    assert!(!meta.is_empty());
    assert_eq!(meta.icc_profile.as_deref(), Some([1, 2, 3].as_slice()));
    assert_eq!(meta.exif.as_deref(), Some([4, 5].as_slice()));
    assert!(meta.xmp.is_none());
    assert_eq!(meta.cicp, Some(Cicp::SRGB()));
    assert_eq!(meta.orientation, Orientation::Rotate90);
}

#[test]
fn metadata_from_image_info() {
    let info = ImageInfo::new(100, 200, ImageFormat::Jpeg)
        .with_icc_profile(vec![10, 20, 30])
        .with_exif(vec![4, 5])
        .with_cicp(Cicp::SRGB())
        .with_orientation(Orientation::Rotate270);
    let meta = Metadata::from(&info);
    assert_eq!(meta.icc_profile.as_deref(), Some([10, 20, 30].as_slice()));
    assert_eq!(meta.exif.as_deref(), Some([4, 5].as_slice()));
    assert_eq!(meta.cicp, Some(Cicp::SRGB()));
    assert_eq!(meta.orientation, Orientation::Rotate270);
}

fn build_minimal_exif_with_orientation(value: u16, big_endian: bool) -> Vec<u8> {
    let mut v = Vec::new();
    if big_endian {
        v.extend_from_slice(b"MM\x00\x2a");
        v.extend_from_slice(&8u32.to_be_bytes());
        v.extend_from_slice(&1u16.to_be_bytes());
        v.extend_from_slice(&0x0112u16.to_be_bytes());
        v.extend_from_slice(&3u16.to_be_bytes());
        v.extend_from_slice(&1u32.to_be_bytes());
        // SHORT value is padded right within 4-byte value field; for BE
        // the value sits in the FIRST 2 bytes.
        v.extend_from_slice(&value.to_be_bytes());
        v.extend_from_slice(&[0u8, 0]);
        v.extend_from_slice(&0u32.to_be_bytes());
    } else {
        v.extend_from_slice(b"II\x2a\x00");
        v.extend_from_slice(&8u32.to_le_bytes());
        v.extend_from_slice(&1u16.to_le_bytes());
        v.extend_from_slice(&0x0112u16.to_le_bytes());
        v.extend_from_slice(&3u16.to_le_bytes());
        v.extend_from_slice(&1u32.to_le_bytes());
        v.extend_from_slice(&(value as u32).to_le_bytes());
        v.extend_from_slice(&0u32.to_le_bytes());
    }
    v
}

#[test]
fn parse_exif_orientation_le_returns_correct_variant() {
    let blob = build_minimal_exif_with_orientation(6, false);
    assert_eq!(parse_exif_orientation(&blob), Some(Orientation::Rotate90));
}

#[test]
fn parse_exif_orientation_be_returns_correct_variant() {
    let blob = build_minimal_exif_with_orientation(6, true);
    assert_eq!(parse_exif_orientation(&blob), Some(Orientation::Rotate90));
}

#[test]
fn parse_exif_orientation_garbage_returns_none() {
    assert_eq!(parse_exif_orientation(b"garbage"), None);
    assert_eq!(parse_exif_orientation(&[]), None);
    assert_eq!(parse_exif_orientation(&[0u8; 7]), None);
}

#[test]
fn with_exif_auto_parses_orientation_from_blob() {
    let blob = build_minimal_exif_with_orientation(8, false);
    let meta = Metadata::none().with_exif(blob);
    assert_eq!(meta.orientation, Orientation::Rotate270);
}

/// A TIFF whose orientation tag is a LONG.
fn build_exif_with_long_orientation(value: u32, big_endian: bool) -> Vec<u8> {
    let mut v = Vec::new();
    if big_endian {
        v.extend_from_slice(b"MM\x00\x2a");
        v.extend_from_slice(&8u32.to_be_bytes());
        v.extend_from_slice(&1u16.to_be_bytes());
        v.extend_from_slice(&0x0112u16.to_be_bytes());
        v.extend_from_slice(&4u16.to_be_bytes()); // type = LONG
        v.extend_from_slice(&1u32.to_be_bytes());
        v.extend_from_slice(&value.to_be_bytes());
    } else {
        v.extend_from_slice(b"II\x2a\x00");
        v.extend_from_slice(&8u32.to_le_bytes());
        v.extend_from_slice(&1u16.to_le_bytes());
        v.extend_from_slice(&0x0112u16.to_le_bytes());
        v.extend_from_slice(&4u16.to_le_bytes()); // type = LONG
        v.extend_from_slice(&1u32.to_le_bytes());
        v.extend_from_slice(&value.to_le_bytes());
    }
    v
}

#[test]
fn parse_exif_orientation_accepts_long_type_be() {
    let blob = build_exif_with_long_orientation(6, true);
    assert_eq!(parse_exif_orientation(&blob), Some(Orientation::Rotate90));
}

#[test]
fn parse_exif_orientation_accepts_long_type_le() {
    let blob = build_exif_with_long_orientation(8, false);
    assert_eq!(parse_exif_orientation(&blob), Some(Orientation::Rotate270));
}

#[test]
fn with_exif_does_not_override_explicit_orientation() {
    let blob = build_minimal_exif_with_orientation(6, false);
    let meta = Metadata::none()
        .with_orientation(Orientation::FlipH)
        .with_exif(blob);
    // Explicit FlipH must win over the EXIF blob's Rotate90.
    assert_eq!(meta.orientation, Orientation::FlipH);
}

// ── MetadataPolicy / filtered ──────────────────────────────────────────

/// LE TIFF source: Make (0x010F, camera) + Orientation (0x0112) + Copyright
/// (0x8298, out-of-line), tag-sorted. `prefix` adds `Exif\0\0` framing.
fn src_exif(orientation: u16, copyright: &str, prefix: bool) -> Vec<u8> {
    let mut cw = copyright.as_bytes().to_vec();
    cw.push(0); // > 4 bytes → out-of-line
    let n: u16 = 3;
    let ifd_size = 2 + 12 * n as usize + 4;
    let ext_off = 8 + ifd_size;

    let mut t = Vec::new();
    t.extend_from_slice(b"II");
    t.extend_from_slice(&42u16.to_le_bytes());
    t.extend_from_slice(&8u32.to_le_bytes());
    t.extend_from_slice(&n.to_le_bytes());
    // Make 0x010F ASCII "Cam\0" (4 bytes, inline) — camera category.
    t.extend_from_slice(&0x010Fu16.to_le_bytes());
    t.extend_from_slice(&2u16.to_le_bytes());
    t.extend_from_slice(&4u32.to_le_bytes());
    t.extend_from_slice(b"Cam\0");
    // Orientation 0x0112 SHORT (inline).
    t.extend_from_slice(&0x0112u16.to_le_bytes());
    t.extend_from_slice(&3u16.to_le_bytes());
    t.extend_from_slice(&1u32.to_le_bytes());
    t.extend_from_slice(&u32::from(orientation).to_le_bytes());
    // Copyright 0x8298 ASCII (out-of-line).
    t.extend_from_slice(&0x8298u16.to_le_bytes());
    t.extend_from_slice(&2u16.to_le_bytes());
    t.extend_from_slice(&(cw.len() as u32).to_le_bytes());
    t.extend_from_slice(&(ext_off as u32).to_le_bytes());
    t.extend_from_slice(&0u32.to_le_bytes()); // next-IFD offset
    t.extend_from_slice(&cw);

    if prefix {
        let mut out = Vec::with_capacity(6 + t.len());
        out.extend_from_slice(b"Exif\0\0");
        out.extend_from_slice(&t);
        out
    } else {
        t
    }
}

/// True if the (little-endian) tag appears in the blob's entry stream.
fn has_tag(blob: &[u8], tag: u16) -> bool {
    blob.windows(2).any(|w| w == tag.to_le_bytes())
}

#[test]
fn policy_default_is_web() {
    assert_eq!(MetadataPolicy::default(), MetadataPolicy::Web);
}

#[test]
fn policy_fields_resolution() {
    assert_eq!(
        MetadataPolicy::PreserveExact.fields(),
        MetadataFields::KEEP_ALL()
    );
    assert_eq!(
        MetadataPolicy::PreserveExact.fields().icc,
        IccRetention::Keep
    );
    assert_eq!(
        MetadataPolicy::Preserve.fields().icc,
        IccRetention::KeepNonSrgb
    );
    assert_eq!(MetadataPolicy::Preserve.fields().exif, ExifPolicy::KEEP_ALL());

    let web = MetadataPolicy::Web.fields();
    assert_eq!(web.icc, IccRetention::KeepNonSrgb);
    assert_eq!(web.exif, ExifPolicy::ATTRIBUTED_ORIENTATION());
    assert_eq!(web.xmp, Retention::Discard);
    assert_eq!(web.cicp, Retention::Keep);
    assert_eq!(web.hdr, Retention::Keep);

    let car = MetadataPolicy::ColorAndRotation.fields();
    assert_eq!(car.exif, ExifPolicy::ORIENTATION_ONLY());
    assert_eq!(car.cicp, Retention::Keep);

    let custom = MetadataFields::DISCARD_ALL().with_xmp(Retention::Keep);
    assert_eq!(MetadataPolicy::Custom(custom).fields(), custom);
}

#[test]
fn icc_three_way_retention() {
    let icc = vec![0xABu8; 256]; // arbitrary → not recognized as sRGB
    let meta = Metadata::none().with_icc(icc.clone());
    // KeepNonSrgb keeps a non-sRGB profile (Web/Preserve).
    assert_eq!(
        meta.filtered(&MetadataPolicy::Web).icc_profile.as_deref(),
        Some(icc.as_slice())
    );
    // Keep keeps it too (PreserveExact).
    assert_eq!(
        meta.filtered(&MetadataPolicy::PreserveExact)
            .icc_profile
            .as_deref(),
        Some(icc.as_slice())
    );
    // Drop removes it.
    let drop = MetadataFields::KEEP_ALL().with_icc(IccRetention::Drop);
    assert!(
        meta.filtered(&MetadataPolicy::Custom(drop))
            .icc_profile
            .is_none()
    );
}

#[test]
fn web_keeps_orientation_rights_drops_camera_and_xmp() {
    let src = src_exif(6, "(c) 2026 Lilith", false);
    let meta = Metadata::none()
        .with_exif(src.clone())
        .with_xmp(vec![1, 2, 3])
        .with_cicp(Cicp::SRGB())
        .with_content_light_level(ContentLightLevel {
            max_content_light_level: 1000,
            max_frame_average_light_level: 400,
        });
    assert_eq!(meta.orientation, Orientation::Rotate90);

    let out = meta.filtered(&MetadataPolicy::Web);
    let e = out.exif.as_deref().expect("rewritten EXIF");
    let ex = Exif::parse(e).expect("parses");
    assert_eq!(ex.orientation(), Some(Orientation::Rotate90));
    assert_eq!(ex.copyright().unwrap(), "(c) 2026 Lilith");
    // Camera (Make 0x010F) dropped; output is smaller than the source.
    assert!(!has_tag(e, 0x010F));
    assert!(e.len() < src.len());
    assert_eq!(out.orientation, Orientation::Rotate90);
    assert!(out.xmp.is_none());
    assert_eq!(out.cicp, Some(Cicp::SRGB()));
    assert!(out.content_light_level.is_some());
}

#[test]
fn preserve_exact_passes_exif_through_byte_identical() {
    let src = src_exif(6, "(c) Owner", false);
    let meta = Metadata::none()
        .with_exif(src.clone())
        .with_xmp(vec![9, 9])
        .with_icc(vec![0xABu8; 200]);
    let out = meta.filtered(&MetadataPolicy::PreserveExact);
    assert_eq!(out.exif.as_deref(), Some(src.as_slice()));
    assert!(has_tag(out.exif.as_deref().unwrap(), 0x010F)); // camera kept
    assert_eq!(out.xmp.as_deref(), Some([9, 9].as_slice()));
    assert!(out.icc_profile.is_some());
}

#[test]
fn color_and_rotation_keeps_orientation_drops_rights() {
    let src = src_exif(8, "(c) Owner", false);
    let meta = Metadata::none().with_exif(src).with_cicp(Cicp::SRGB());
    let out = meta.filtered(&MetadataPolicy::ColorAndRotation);
    let e = out.exif.as_deref().expect("EXIF");
    let ex = Exif::parse(e).expect("parses");
    assert_eq!(ex.orientation(), Some(Orientation::Rotate270));
    assert!(ex.copyright().is_none()); // rights dropped
    assert!(!has_tag(e, 0x010F)); // camera dropped
    assert_eq!(out.cicp, Some(Cicp::SRGB()));
}

// ── Embed-time policy carried on Metadata (for_embedding) ────────────────

#[test]
fn default_policy_is_web() {
    // Privacy-safe default: a freshly built Metadata wants Web filtering.
    assert_eq!(Metadata::none().policy, MetadataPolicy::Web);
    assert_eq!(Metadata::default().policy, MetadataPolicy::Web);
}

#[test]
fn with_policy_sets_policy() {
    let m = Metadata::none().with_policy(MetadataPolicy::PreserveExact);
    assert_eq!(m.policy, MetadataPolicy::PreserveExact);
}

#[test]
fn for_embedding_applies_carried_web_policy_by_default() {
    // The codec-facing hook: with the default Web policy, for_embedding
    // strips camera identity while keeping orientation + rights.
    let src = src_exif(6, "(c) Me", false);
    let meta = Metadata::none().with_exif(src);
    assert_eq!(meta.policy, MetadataPolicy::Web);
    let embed = meta.for_embedding();
    let e = embed.exif.as_deref().expect("EXIF");
    let ex = Exif::parse(e).expect("parses");
    assert_eq!(ex.orientation(), Some(Orientation::Rotate90));
    assert_eq!(ex.copyright().unwrap(), "(c) Me");
    assert!(
        !has_tag(e, 0x010F),
        "camera (Make) must be stripped by default"
    );
}

#[test]
fn for_embedding_preserve_exact_is_verbatim() {
    let src = src_exif(6, "(c) Me", false);
    let meta = Metadata::none()
        .with_exif(src.clone())
        .with_policy(MetadataPolicy::PreserveExact);
    let embed = meta.for_embedding();
    assert_eq!(embed.exif.as_deref(), Some(src.as_slice()), "verbatim");
    assert!(
        has_tag(embed.exif.as_deref().unwrap(), 0x010F),
        "camera kept"
    );
}

#[test]
fn for_embedding_output_is_marked_final_no_double_strip() {
    let src = src_exif(6, "(c) Me", false);
    let once = Metadata::none().with_exif(src).for_embedding(); // Web-filtered
    assert_eq!(once.policy, MetadataPolicy::PreserveExact);
    // Re-embedding the already-filtered metadata is a no-op, not a re-strip.
    let twice = once.for_embedding();
    assert_eq!(twice.exif, once.exif);
    let ex = Exif::parse(twice.exif.as_deref().unwrap()).unwrap();
    assert_eq!(ex.copyright().unwrap(), "(c) Me");
}

#[test]
fn filtered_reconciles_baked_orientation_tag() {
    // Simulate a decoder that baked orientation upright: the structured field
    // is Identity, but the source EXIF blob still carries Rotate90 (6).
    let blob = src_exif(6, "(c) Owner", false);
    let meta = Metadata::none()
        .with_exif(blob) // parses 6 → field = Rotate90
        .with_orientation(Orientation::Identity); // baked: field reset to Identity
    assert_eq!(meta.orientation, Orientation::Identity);
    // The unfiltered blob still says Rotate90 — the divergence.
    assert_eq!(
        parse_exif_orientation(meta.exif.as_deref().unwrap()),
        Some(Orientation::Rotate90)
    );

    // filtered() rewrites the embedded tag to match the authoritative field,
    // so the emitted metadata is self-consistent (no double-rotation).
    let out = meta.filtered(&MetadataPolicy::PreserveExact);
    assert_eq!(out.orientation, Orientation::Identity);
    assert_eq!(
        parse_exif_orientation(out.exif.as_deref().unwrap()),
        Some(Orientation::Identity),
        "baked-upright blob must be rewritten to Identity, not left at Rotate90"
    );
}

#[test]
fn custom_drop_only_camera_keeps_rest() {
    let src = src_exif(6, "(c) Owner", false);
    let fields = MetadataFields::KEEP_ALL().with_exif(ExifPolicy::KEEP_ALL().with_camera(Retention::Discard));
    let out = Metadata::none()
        .with_exif(src)
        .filtered(&MetadataPolicy::Custom(fields));
    let e = out.exif.as_deref().expect("EXIF");
    let ex = Exif::parse(e).expect("parses");
    assert_eq!(ex.orientation(), Some(Orientation::Rotate90));
    assert_eq!(ex.copyright().unwrap(), "(c) Owner");
    assert!(!has_tag(e, 0x010F)); // only camera dropped
}

#[test]
fn dropping_orientation_resets_field_to_identity() {
    let meta = Metadata::none().with_orientation(Orientation::Rotate90);
    let fields = MetadataFields::KEEP_ALL().with_exif(ExifPolicy::KEEP_ALL().with_orientation(Retention::Discard));
    let out = meta.filtered(&MetadataPolicy::Custom(fields));
    assert_eq!(out.orientation, Orientation::Identity);
}

#[test]
fn exif_prefix_preserved_through_rewrite() {
    let src = src_exif(6, "(c) Owner", true); // Exif\0\0 prefix
    let out = Metadata::none()
        .with_exif(src)
        .filtered(&MetadataPolicy::Web);
    let e = out.exif.as_deref().expect("EXIF");
    assert_eq!(&e[..6], b"Exif\0\0");
    let ex = Exif::parse(e).expect("parses");
    assert_eq!(ex.orientation(), Some(Orientation::Rotate90));
    assert_eq!(ex.copyright().unwrap(), "(c) Owner");
}

#[test]
fn filtered_empty_metadata_is_empty() {
    for p in [
        MetadataPolicy::PreserveExact,
        MetadataPolicy::Preserve,
        MetadataPolicy::Web,
        MetadataPolicy::ColorAndRotation,
    ] {
        assert!(Metadata::none().filtered(&p).is_empty());
    }
}

fn mastering() -> zenpixels::MasteringDisplay {
    zenpixels::MasteringDisplay::new(
        [[0.64, 0.33], [0.30, 0.60], [0.15, 0.06]],
        [0.3127, 0.3290],
        1000.0,
        0.001,
    )
}

#[test]
fn hdr_is_kept_and_dropped_as_one() {
    let light = ContentLightLevel {
        max_content_light_level: 1000,
        max_frame_average_light_level: 400,
    };
    let meta = Metadata::none()
        .with_content_light_level(light)
        .with_mastering_display(mastering());
    assert!(!meta.is_empty());
    let out = meta.filtered(&MetadataPolicy::Web);
    assert_eq!(out.mastering_display, Some(mastering()));
    assert_eq!(out.content_light_level, Some(light));
    let dropped = MetadataFields::KEEP_ALL().with_hdr(Retention::Discard);
    assert!(meta.filtered(&MetadataPolicy::Custom(dropped)).is_empty());
}

#[test]
fn cicp_and_xmp_follow_their_rules() {
    let meta = Metadata::none().with_cicp(Cicp::BT2100_PQ()).with_xmp(vec![7]);
    assert_eq!(meta.transfer_function(), TransferFunction::Pq);
    assert_eq!(meta.color_primaries(), ColorPrimaries::Bt2020);
    assert_eq!(Metadata::none().color_primaries(), ColorPrimaries::Bt709);
    let fields = MetadataFields::KEEP_ALL()
        .with_cicp(Retention::Discard)
        .with_xmp(Retention::Discard)
        .with_exif(ExifPolicy::DISCARD_ALL());
    let out = meta.filtered(&MetadataPolicy::Custom(fields));
    assert!(out.cicp.is_none() && out.xmp.is_none());
    let out = meta.filtered(&MetadataPolicy::PreserveExact);
    assert_eq!(out.cicp, Some(Cicp::BT2100_PQ()));
    assert_eq!(out.xmp.as_deref(), Some([7].as_slice()));
}

#[test]
fn filtering_twice_changes_nothing() {
    for policy in [MetadataPolicy::Web, MetadataPolicy::ColorAndRotation, MetadataPolicy::Preserve] {
        let meta = Metadata::none()
            .with_exif(src_exif(6, "(c) Me", true))
            .with_orientation(Orientation::Rotate180)
            .with_cicp(Cicp::SRGB());
        let once = meta.filtered(&policy);
        assert_eq!(once.filtered(&policy), once);
        assert_eq!(
            parse_exif_orientation(once.exif.as_deref().unwrap()),
            Some(Orientation::Rotate180)
        );
    }
}
