//! Conversion tables between quality metrics.
use zencodec::metric::{
    butteraugli_max_to_ssim2, butteraugli_pnorm3_to_ssim2, ssim2_to_butteraugli_max,
    ssim2_to_butteraugli_pnorm3, table_from_ssim2, table_to_ssim2, Metric,
};

#[test]
fn tables_are_strictly_monotone_in_key() {
    for t in [
        ssim2_to_butteraugli_max(),
        ssim2_to_butteraugli_pnorm3(),
        butteraugli_max_to_ssim2(),
        butteraugli_pnorm3_to_ssim2(),
    ] {
        for w in t.windows(2) {
            assert!(w[1].0 > w[0].0, "key not strictly ascending: {w:?}");
        }
    }
}

#[test]
fn tables_go_through_ssim2() {
    assert!(table_to_ssim2(Metric::Ssim2).is_none());
    assert!(table_from_ssim2(Metric::Ssim2).is_none());
    assert_eq!(table_to_ssim2(Metric::ButteraugliMax), Some(butteraugli_max_to_ssim2()));
    assert_eq!(table_from_ssim2(Metric::ButteraugliPnorm3), Some(ssim2_to_butteraugli_pnorm3()));
}

#[test]
fn tables_hold_the_calibrated_knots() {
    assert!(ssim2_to_butteraugli_max().contains(&(85000, 2324)));
    assert!(ssim2_to_butteraugli_pnorm3().contains(&(85000, 840)));
    assert!(butteraugli_max_to_ssim2().contains(&(2324, 85000)));
    assert!(butteraugli_pnorm3_to_ssim2().contains(&(840, 85000)));
}

#[test]
fn distance_falls_as_quality_rises() {
    for t in [ssim2_to_butteraugli_max(), ssim2_to_butteraugli_pnorm3()] {
        for w in t.windows(2) {
            assert!(w[1].1 < w[0].1);
        }
    }
}
