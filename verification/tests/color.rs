//! How color is signaled in the output.
use zencodec::capabilities::EncodeCapabilities;
use zencodec::cicp::Cicp;
use zencodec::color::{
    plan_color_emit, profile_facts, resolve_color_emit, CicpEmission, ColorEmitFields,
    ColorEmitPolicy, IccDisposition,
};
use zencodec::icc::ProfileSpace;
use zencodec::info::{ColorAuthority, SourceColor};
use zencodec::metadata::IccRetention;

fn caps_jxl() -> EncodeCapabilities {
    EncodeCapabilities::new()
        .with_icc(true)
        .with_cicp(true)
        .with_cicp_is_valid_carrier(true)
        .with_cicp_safe_sole_carrier(true)
}
fn caps_avif() -> EncodeCapabilities {
    EncodeCapabilities::new()
        .with_icc(true)
        .with_cicp(true)
        .with_cicp_is_valid_carrier(true)
        .with_cicp_safe_sole_carrier(true)
}
fn caps_jpeg() -> EncodeCapabilities {
    EncodeCapabilities::new().with_icc(true)
}
fn caps_png() -> EncodeCapabilities {
    EncodeCapabilities::new()
        .with_icc(true)
        .with_cicp(true)
        .with_cicp_is_valid_carrier(true)
        .with_cicp_safe_sole_carrier(false)
}

fn src_cicp(c: Cicp) -> SourceColor {
    SourceColor::default()
        .with_cicp(c)
        .with_color_authority(ColorAuthority::Cicp)
        .with_channel_count(3)
}

#[test]
fn jxl_balanced_strips_representable_icc() {
    let src = SourceColor::default()
        .with_cicp(Cicp::SRGB())
        .with_icc_profile(vec![0u8; 132])
        .with_channel_count(3);
    let plan = resolve_color_emit(&src, &caps_jxl(), ColorEmitPolicy::Balanced);
    assert_eq!(plan.cicp, Some(Cicp::SRGB()));
    assert_eq!(plan.icc, IccDisposition::Drop);
}

#[test]
fn avif_balanced_drops_redundant_icc_now_sole_safe() {
    let p3 = src_cicp(Cicp::DISPLAY_P3()).with_icc_profile(vec![0u8; 132]);
    let plan = resolve_color_emit(&p3, &caps_avif(), ColorEmitPolicy::Balanced);
    assert_eq!(plan.cicp, Some(Cicp::DISPLAY_P3()));
    assert_eq!(plan.icc, IccDisposition::Drop);
}

#[test]
fn jpeg_synthesizes_icc_from_cicp() {
    let src = src_cicp(Cicp::DISPLAY_P3());
    let plan = resolve_color_emit(&src, &caps_jpeg(), ColorEmitPolicy::Balanced);
    assert_eq!(plan.cicp, None);
    assert_eq!(plan.icc, IccDisposition::SynthesizeFrom(Cicp::DISPLAY_P3()));
}

#[test]
fn compact_strips_icc_on_avif() {
    let p3 = src_cicp(Cicp::DISPLAY_P3()).with_icc_profile(vec![0u8; 132]);
    let plan = resolve_color_emit(&p3, &caps_avif(), ColorEmitPolicy::Compact);
    assert_eq!(plan.cicp, Some(Cicp::DISPLAY_P3()));
    assert_eq!(plan.icc, IccDisposition::Drop);
}

#[test]
fn compatibility_always_keeps_or_synthesizes_icc() {
    let src = src_cicp(Cicp::DISPLAY_P3());
    let plan = resolve_color_emit(&src, &caps_avif(), ColorEmitPolicy::Compatibility);
    assert_eq!(plan.cicp, Some(Cicp::DISPLAY_P3()));
    assert_eq!(plan.icc, IccDisposition::SynthesizeFrom(Cicp::DISPLAY_P3()));
}

#[test]
fn grayscale_keeps_icc_suppresses_cicp() {
    let src = SourceColor::default()
        .with_icc_profile(vec![0u8; 132])
        .with_channel_count(1);
    let plan = resolve_color_emit(&src, &caps_avif(), ColorEmitPolicy::Balanced);
    assert_eq!(plan.cicp, None);
    assert_eq!(plan.icc, IccDisposition::KeepSource);
}

#[test]
fn verbatim_passes_source_through() {
    let src = src_cicp(Cicp::DISPLAY_P3()).with_icc_profile(vec![0u8; 132]);
    let plan = resolve_color_emit(&src, &caps_avif(), ColorEmitPolicy::Verbatim);
    assert_eq!(plan.cicp, Some(Cicp::DISPLAY_P3()));
    assert_eq!(plan.icc, IccDisposition::KeepSource);
}

#[test]
fn default_policy_is_balanced() {
    assert_eq!(ColorEmitPolicy::default(), ColorEmitPolicy::Balanced);
}

#[test]
fn png_emits_cicp_keeps_icc_under_balanced() {
    let p3 = src_cicp(Cicp::DISPLAY_P3()).with_icc_profile(vec![0u8; 132]);
    let plan = resolve_color_emit(&p3, &caps_png(), ColorEmitPolicy::Balanced);
    assert_eq!(plan.cicp, Some(Cicp::DISPLAY_P3()));
    assert_eq!(plan.icc, IccDisposition::KeepSource);
}

#[test]
fn srgb_only_source_does_not_synthesize_redundant_icc() {
    let src = src_cicp(Cicp::SRGB());
    let plan = resolve_color_emit(&src, &caps_jpeg(), ColorEmitPolicy::Balanced);
    assert_eq!(plan.cicp, None);
    assert_eq!(plan.icc, IccDisposition::Drop);
}

#[test]
fn custom_policy_is_constructible() {
    let policy = ColorEmitPolicy::Custom(ColorEmitFields::new(
        IccRetention::Keep,
        CicpEmission::Never,
    ));
    let p3 = src_cicp(Cicp::DISPLAY_P3()).with_icc_profile(vec![0u8; 132]);
    let plan = resolve_color_emit(&p3, &caps_avif(), policy);
    assert_eq!(plan.cicp, None); // CicpEmission::Never
    assert_eq!(plan.icc, IccDisposition::KeepSource); // IccRetention::Keep
}

#[test]
fn png_balanced_synthesizes_icc_companion_for_cicp_only() {
    let p3 = src_cicp(Cicp::DISPLAY_P3());
    let plan = resolve_color_emit(&p3, &caps_png(), ColorEmitPolicy::Balanced);
    assert_eq!(plan.cicp, Some(Cicp::DISPLAY_P3()));
    assert_eq!(plan.icc, IccDisposition::SynthesizeFrom(Cicp::DISPLAY_P3()));
}

#[test]
fn avif_balanced_cicp_only_needs_no_companion_now_sole_safe() {
    let p3 = src_cicp(Cicp::DISPLAY_P3());
    let plan = resolve_color_emit(&p3, &caps_avif(), ColorEmitPolicy::Balanced);
    assert_eq!(plan.cicp, Some(Cicp::DISPLAY_P3()));
    assert_eq!(plan.icc, IccDisposition::Drop);
}

#[test]
fn png_compact_stays_cicp_only_for_cicp_only() {
    let p3 = src_cicp(Cicp::DISPLAY_P3());
    let plan = resolve_color_emit(&p3, &caps_png(), ColorEmitPolicy::Compact);
    assert_eq!(plan.cicp, Some(Cicp::DISPLAY_P3()));
    assert_eq!(plan.icc, IccDisposition::Drop);
}

#[test]
fn srgb_cicp_only_png_balanced_does_not_synthesize() {
    let srgb = src_cicp(Cicp::SRGB());
    let plan = resolve_color_emit(&srgb, &caps_png(), ColorEmitPolicy::Balanced);
    assert_eq!(plan.icc, IccDisposition::Drop);
}

#[test]
fn jxl_balanced_cicp_only_needs_no_companion() {
    let p3 = src_cicp(Cicp::DISPLAY_P3());
    let plan = resolve_color_emit(&p3, &caps_jxl(), ColorEmitPolicy::Balanced);
    assert_eq!(plan.cicp, Some(Cicp::DISPLAY_P3()));
    assert_eq!(plan.icc, IccDisposition::Drop);
}

/// A profile of the given color space, with a `cicp` tag.
fn tagged_profile(space: &[u8; 4], codes: [u8; 4]) -> Vec<u8> {
    let mut icc = vec![0u8; 128];
    icc[16..20].copy_from_slice(space);
    icc[36..40].copy_from_slice(b"acsp");
    icc.extend_from_slice(&1u32.to_be_bytes());
    icc.extend_from_slice(b"cicp");
    icc.extend_from_slice(&144u32.to_be_bytes());
    icc.extend_from_slice(&12u32.to_be_bytes());
    icc.extend_from_slice(b"cicp");
    icc.extend_from_slice(&[0; 4]);
    icc.extend_from_slice(&codes);
    icc
}

#[test]
fn cicp_is_recovered_from_a_tagged_profile() {
    let src = SourceColor::default()
        .with_icc_profile(tagged_profile(b"RGB ", [12, 13, 0, 1]))
        .with_channel_count(3);
    let plan = resolve_color_emit(&src, &caps_jxl(), ColorEmitPolicy::Balanced);
    assert_eq!(plan.cicp, Some(Cicp::new(12, 13, 0, true)));
    assert_eq!(plan.icc, IccDisposition::Drop);
    let untagged = SourceColor::default()
        .with_icc_profile(vec![0u8; 160])
        .with_channel_count(3);
    let plan = resolve_color_emit(&untagged, &caps_jxl(), ColorEmitPolicy::Balanced);
    assert_eq!(plan.cicp, None);
    assert_eq!(plan.icc, IccDisposition::KeepSource);
}

#[test]
fn gray_and_cmyk_profiles_suppress_cicp() {
    for space in [b"GRAY", b"CMYK"] {
        let src = src_cicp(Cicp::DISPLAY_P3())
            .with_icc_profile(tagged_profile(space, [12, 13, 0, 1]));
        let plan = resolve_color_emit(&src, &caps_jxl(), ColorEmitPolicy::Balanced);
        assert_eq!(plan.cicp, None);
        assert_eq!(plan.icc, IccDisposition::KeepSource);
    }
}

#[test]
fn unknown_profiles_have_no_facts() {
    let facts = profile_facts(&SourceColor::default().with_icc_profile(vec![0xAB; 256]));
    assert_eq!(facts.cicp, None);
    assert!(!facts.srgb);
    assert_eq!(facts.space, None);
    let facts = profile_facts(
        &SourceColor::default().with_icc_profile(tagged_profile(b"GRAY", [1, 13, 0, 0])),
    );
    assert_eq!(facts.cicp, Some(Cicp::new(1, 13, 0, false)));
    assert_eq!(facts.space, Some(ProfileSpace::Gray));
}

#[test]
fn plans_follow_the_facts() {
    let src = src_cicp(Cicp::SRGB()).with_icc_profile(vec![0xAB; 256]);
    let facts = profile_facts(&src);
    assert_eq!(
        plan_color_emit(&src, facts, &caps_png(), ColorEmitPolicy::Balanced),
        resolve_color_emit(&src, &caps_png(), ColorEmitPolicy::Balanced)
    );
}

/// A profile with these tag table entries: signature, offset, size.
fn profile_with_tags(tags: &[(&[u8; 4], u32, u32)], data: &[u8]) -> Vec<u8> {
    let mut icc = vec![0u8; 128];
    icc[16..20].copy_from_slice(b"RGB ");
    icc[36..40].copy_from_slice(b"acsp");
    icc.extend_from_slice(&(tags.len() as u32).to_be_bytes());
    for (sig, off, size) in tags {
        icc.extend_from_slice(*sig);
        icc.extend_from_slice(&off.to_be_bytes());
        icc.extend_from_slice(&size.to_be_bytes());
    }
    icc.extend_from_slice(data);
    icc
}

fn tagged(icc: Vec<u8>) -> Option<Cicp> {
    profile_facts(&SourceColor::default().with_icc_profile(icc)).cicp
}

#[test]
fn only_the_first_cicp_tag_is_read() {
    let data = *b"cicp\0\0\0\0\x0C\x0D\x00\x01";
    // Behind other tags.
    let icc = profile_with_tags(&[(b"desc", 0, 0), (b"cicp", 156, 12)], &data);
    assert_eq!(tagged(icc), Some(Cicp::new(12, 13, 0, true)));
    // A first tag that is too small hides a second.
    let icc = profile_with_tags(&[(b"cicp", 156, 11), (b"cicp", 156, 12)], &data);
    assert_eq!(tagged(icc), None);
    // An offset outside the profile, and at the end of its range.
    for off in [157, 0xFFFF_FFF3, 0xFFFF_FFF4, 0xFFFF_FFFF] {
        let icc = profile_with_tags(&[(b"cicp", off, 12), (b"cicp", 156, 12)], &data);
        assert_eq!(tagged(icc), None);
    }
    // Data without its signature.
    let icc = profile_with_tags(&[(b"cicp", 144, 12)], &[0; 12]);
    assert_eq!(tagged(icc), None);
    // A table that ends with the data.
    let mut icc = profile_with_tags(&[(b"desc", 0, 0)], &data);
    icc[128..132].copy_from_slice(&5u32.to_be_bytes());
    assert_eq!(tagged(icc), None);
    // A tag past the two hundredth.
    let mut tags: Vec<(&[u8; 4], u32, u32)> = vec![(b"desc", 0, 0); 200];
    tags.push((b"cicp", 132 + 12 * 201, 12));
    assert_eq!(tagged(profile_with_tags(&tags, &data)), None);
    tags.swap(199, 200);
    assert_eq!(tagged(profile_with_tags(&tags, &data)), Some(Cicp::new(12, 13, 0, true)));
}

#[test]
fn own_code_points_come_before_the_tag() {
    let src = src_cicp(Cicp::DISPLAY_P3())
        .with_icc_profile(tagged_profile(b"RGB ", [9, 16, 0, 1]));
    let plan = resolve_color_emit(&src, &caps_jxl(), ColorEmitPolicy::Balanced);
    assert_eq!(plan.cicp, Some(Cicp::DISPLAY_P3()));
}
