//! Orientations and orientation hints.
use zencodec::{Orientation, OrientationHint};

#[test]
fn orientation_hint_default_is_preserve() {
    assert_eq!(OrientationHint::default(), OrientationHint::Preserve);
}

#[test]
fn orientation_hint_variants() {
    let _ = OrientationHint::Preserve;
    let _ = OrientationHint::Correct;
    let _ = OrientationHint::CorrectAndTransform(Orientation::Rotate90);
    let _ = OrientationHint::ExactTransform(Orientation::Rotate180);
}

#[test]
fn bakes_only_false_for_preserve() {
    assert!(!OrientationHint::Preserve.bakes());
    assert!(OrientationHint::Correct.bakes());
    assert!(OrientationHint::CorrectAndTransform(Orientation::Rotate90).bakes());
    assert!(OrientationHint::ExactTransform(Orientation::Rotate180).bakes());
    // The default (Preserve) must not bake — this is the ecosystem default.
    assert!(!OrientationHint::default().bakes());
}

#[test]
fn exif_codes_round_trip() {
    for code in 1..=8u8 {
        assert_eq!(Orientation::from_exif(code).map(|o| o.to_exif()), Some(code));
    }
    assert_eq!(Orientation::from_exif(0), None);
    assert_eq!(Orientation::from_exif(9), None);
    assert_eq!(Orientation::from_exif(6), Some(Orientation::Rotate90));
}
