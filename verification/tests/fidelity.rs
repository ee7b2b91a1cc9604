//! What an encode is asked to keep.
use zencodec::fidelity::{Fidelity, LossyTarget, NearLosslessBudget};

#[test]
fn budget_exact_round_trips_both_depths() {
    let b = NearLosslessBudget::from_8bit_steps(2);
    assert_eq!(b.max_error_at_depth(8), 2, "±2 at 8-bit");
    assert_eq!(b.max_error_at_depth(16), 514, "same fraction at 16-bit");
    assert!(!b.is_exact());
    assert!(NearLosslessBudget::EXACT().is_exact());
    assert_eq!(NearLosslessBudget::EXACT().max_error_at_depth(8), 0);
}

#[test]
fn budget_max_is_full_range() {
    assert_eq!(NearLosslessBudget::MAX().max_error_at_depth(8), 255);
    assert_eq!(NearLosslessBudget::MAX().max_error_at_depth(16), 65535);
}

#[test]
fn budget_default_and_steps() {
    assert_eq!(
        NearLosslessBudget::DEFAULT(),
        NearLosslessBudget::from_8bit_steps(2)
    );
    // from_8bit_steps(1) is exactly one 8-bit LSB.
    assert_eq!(
        NearLosslessBudget::from_8bit_steps(1).max_error_at_depth(8),
        1
    );
    assert_eq!(
        NearLosslessBudget::from_8bit_steps(255),
        NearLosslessBudget::MAX()
    );
}

#[test]
fn fidelity_is_lossless() {
    assert!(Fidelity::<f32>::Lossless.is_lossless());
    assert!(Fidelity::<f32>::NearLossless(NearLosslessBudget::EXACT()).is_lossless());
    assert!(!Fidelity::<f32>::NearLossless(NearLosslessBudget::DEFAULT()).is_lossless());
    assert!(!Fidelity::ssim2(90.0).is_lossless());
    assert!(!Fidelity::butteraugli_max(1.0).is_lossless());
    assert!(!Fidelity::codec_quality(90.0).is_lossless());
}

#[test]
fn fidelity_constructors() {
    assert_eq!(
        Fidelity::ssim2(90.0),
        Fidelity::Lossy(LossyTarget::ApproxSsim2(90.0))
    );
    assert_eq!(
        Fidelity::butteraugli_max(1.0),
        Fidelity::Lossy(LossyTarget::ApproxButteraugliMax(1.0))
    );
    assert_eq!(
        Fidelity::codec_quality(85.0),
        Fidelity::Lossy(LossyTarget::CodecSpecificQuality(85.0))
    );
}

#[test]
fn generic_settings_and_back() {
    assert_eq!(Fidelity::ssim2(90.0f32).generic_settings(), (false, Some(90.0)));
    assert_eq!(Fidelity::codec_quality(85.0f32).generic_settings(), (false, Some(85.0)));
    assert_eq!(Fidelity::butteraugli_max(1.0f32).generic_settings(), (false, None));
    assert_eq!(Fidelity::<f32>::Lossless.generic_settings(), (true, None));
    let near = Fidelity::<f32>::near_lossless(NearLosslessBudget::DEFAULT());
    assert_eq!(near.generic_settings(), (true, None));

    assert_eq!(Fidelity::<f32>::resolved(Some(true), Some(5.0)), Some(Fidelity::Lossless));
    assert_eq!(Fidelity::resolved(Some(false), Some(5.0f32)), Some(Fidelity::codec_quality(5.0)));
    assert_eq!(Fidelity::resolved(None, Some(5.0f32)), Some(Fidelity::codec_quality(5.0)));
    assert_eq!(Fidelity::<f32>::resolved(Some(false), None), None);
}

#[test]
fn guarantees_round_down() {
    let b = NearLosslessBudget::from_16bit_steps(513);
    assert_eq!(b.to_16bit_steps(), 513);
    assert_eq!(b.max_error_at_depth(8), 1);
    assert_eq!(b.max_error_at_depth(16), 513);
    for n in 0..=255u8 {
        assert_eq!(NearLosslessBudget::from_8bit_steps(n).max_error_at_depth(8), u32::from(n));
    }
}
