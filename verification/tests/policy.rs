//! Decode and encode policies.
use zencodec::color::ColorEmitPolicy;
use zencodec::metadata::{MetadataFields, MetadataPolicy};
use zencodec::policy::{DecodePolicy, EncodePolicy};

#[test]
fn decode_none_is_all_none() {
    let p = DecodePolicy::none();
    assert_eq!(p.allow_icc, None);
    assert_eq!(p.allow_exif, None);
    assert_eq!(p.allow_xmp, None);
    assert_eq!(p.allow_progressive, None);
    assert_eq!(p.allow_animation, None);
    assert_eq!(p.allow_truncated, None);
    assert_eq!(p.strict, None);
}

#[test]
fn decode_strict_denies_all() {
    let p = DecodePolicy::strict();
    assert_eq!(p.allow_icc, Some(false));
    assert_eq!(p.allow_exif, Some(false));
    assert_eq!(p.allow_animation, Some(false));
    assert_eq!(p.strict, Some(true));
}

#[test]
fn decode_permissive_allows_all() {
    let p = DecodePolicy::permissive();
    assert_eq!(p.allow_icc, Some(true));
    assert_eq!(p.allow_truncated, Some(true));
    assert_eq!(p.strict, Some(false));
}

#[test]
fn decode_builder_overrides() {
    let p = DecodePolicy::strict().with_allow_icc(true);
    assert_eq!(p.allow_icc, Some(true));
    assert_eq!(p.allow_exif, Some(false)); // still strict
}

#[test]
fn decode_resolve_with_default() {
    let p = DecodePolicy::none();
    assert!(p.resolve_icc(true));
    assert!(!p.resolve_icc(false));

    let p = DecodePolicy::strict();
    assert!(!p.resolve_icc(true)); // explicit false overrides default true
}

#[test]
fn encode_none_is_all_none() {
    let p = EncodePolicy::none();
    assert_eq!(p.embed_icc, None);
    assert_eq!(p.embed_exif, None);
    assert_eq!(p.embed_xmp, None);
}

#[test]
fn encode_strip_all() {
    let p = EncodePolicy::strip_all();
    assert_eq!(p.embed_icc, Some(false));
    assert_eq!(p.embed_exif, Some(false));
    assert_eq!(p.embed_xmp, Some(false));
    // Reliable channel: strip_all carries a real discard policy, so a
    // pipeline applying `resolve_metadata` actually strips even when the
    // advisory embed_* flags are a no-op on the codec.
    assert_eq!(
        p.resolve_metadata(MetadataPolicy::Web),
        MetadataPolicy::Custom(MetadataFields::DISCARD_ALL())
    );
}

#[test]
fn encode_preserve_all() {
    let p = EncodePolicy::preserve_all();
    assert_eq!(p.embed_icc, Some(true));
    assert_eq!(p.embed_exif, Some(true));
    assert_eq!(p.embed_xmp, Some(true));
    assert_eq!(
        p.resolve_metadata(MetadataPolicy::Web),
        MetadataPolicy::PreserveExact
    );
}

#[test]
fn encode_builder_overrides() {
    let p = EncodePolicy::strip_all().with_embed_icc(true);
    assert_eq!(p.embed_icc, Some(true));
    assert_eq!(p.embed_exif, Some(false)); // still stripped
}

#[test]
fn encode_resolve_with_default() {
    let p = EncodePolicy::none();
    assert!(p.resolve_icc(true));
    assert!(!p.resolve_icc(false));

    let p = EncodePolicy::strip_all();
    assert!(!p.resolve_icc(true));
}

#[test]
fn static_construction() {
    let _decode: DecodePolicy = DecodePolicy::strict().with_allow_icc(true);
    let _encode: EncodePolicy = EncodePolicy::strip_all().with_embed_icc(true);
}

#[test]
fn default_is_none() {
    assert_eq!(DecodePolicy::default(), DecodePolicy::none());
    assert_eq!(EncodePolicy::default(), EncodePolicy::none());
}

#[test]
fn decode_builders_set_one_rule_each() {
    let p = DecodePolicy::none()
        .with_allow_exif(false)
        .with_allow_xmp(true)
        .with_allow_progressive(false)
        .with_allow_animation(true)
        .with_allow_truncated(false)
        .with_strict(true);
    assert_eq!(p.allow_icc, None);
    assert!(!p.resolve_exif(true));
    assert!(p.resolve_xmp(false));
    assert!(!p.resolve_progressive(true));
    assert!(p.resolve_animation(false));
    assert!(!p.resolve_truncated(true));
    assert!(p.resolve_strict(false));
}

#[test]
fn encode_color_and_metadata_policies_resolve() {
    let p = EncodePolicy::none();
    assert_eq!(p.resolve_color(ColorEmitPolicy::Compact), ColorEmitPolicy::Compact);
    assert_eq!(p.resolve_metadata(MetadataPolicy::Web), MetadataPolicy::Web);
    let p = p
        .with_color(ColorEmitPolicy::Verbatim)
        .with_metadata_policy(MetadataPolicy::ColorAndRotation)
        .with_embed_exif(true)
        .with_embed_xmp(false);
    assert_eq!(p.resolve_color(ColorEmitPolicy::Compact), ColorEmitPolicy::Verbatim);
    assert_eq!(p.resolve_metadata(MetadataPolicy::Web), MetadataPolicy::ColorAndRotation);
    assert!(p.resolve_exif(false));
    assert!(!p.resolve_xmp(true));
}
