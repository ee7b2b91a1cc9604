//! Conversion tables between perceptual quality metrics.
//!
//! Keys and values are in thousandths. A table is read by linear interpolation
//! between its knots and is flat beyond its ends.
use vstd::prelude::*;

verus! {

/// A perceptual quality metric.
#[derive(Clone, Copy, Debug, PartialEq, Eq, Structural)]
#[non_exhaustive]
pub enum Metric {
    /// SSIMULACRA2, the higher the better; conversions go through it.
    Ssim2,
    /// Butteraugli, worst region, the lower the better.
    ButteraugliMax,
    /// Butteraugli, 3-norm, the lower the better.
    ButteraugliPnorm3,
}

/// A table the other way round: keys become values, in ascending order.
pub open spec fn mirrored(t: Seq<(u32, u32)>) -> Seq<(u32, u32)> {
    Seq::new(t.len(), |i: int| (t[t.len() - 1 - i].1, t[t.len() - 1 - i].0))
}

/// Whether the keys of a table ascend.
pub open spec fn has_ascending_keys(t: Seq<(u32, u32)>) -> bool {
    forall|i: int, j: int| 0 <= i < j < t.len() ==> (#[trigger] t[i]).0 < (#[trigger] t[j]).0
}

/// Whether the values of a table descend.
pub open spec fn has_descending_values(t: Seq<(u32, u32)>) -> bool {
    forall|i: int, j: int| 0 <= i < j < t.len() ==> (#[trigger] t[i]).1 > (#[trigger] t[j]).1
}

/// SSIMULACRA2 to butteraugli max-norm.
pub open spec fn max_knots() -> Seq<(u32, u32)> {
    seq![
        (0u32, 25733u32),
        (5000, 18423),
        (10000, 15419),
        (15000, 15068),
        (20000, 14410),
        (25000, 10968),
        (30000, 9186),
        (35000, 9185),
        (40000, 9184),
        (45000, 8712),
        (50000, 8711),
        (55000, 8497),
        (60000, 7707),
        (65000, 6669),
        (70000, 5479),
        (75000, 4240),
        (80000, 3427),
        (85000, 2324),
        (90000, 1336),
        (92000, 867),
        (94000, 692),
        (96000, 438),
        (98000, 194),
        (100000, 0),
    ]
}

/// SSIMULACRA2 to butteraugli 3-norm.
pub open spec fn pnorm3_knots() -> Seq<(u32, u32)> {
    seq![
        (0u32, 8261u32),
        (5000, 6145),
        (10000, 5468),
        (15000, 5382),
        (20000, 5096),
        (25000, 3807),
        (30000, 3788),
        (35000, 3752),
        (40000, 3493),
        (45000, 3271),
        (50000, 2948),
        (55000, 2755),
        (60000, 2487),
        (65000, 2115),
        (70000, 1744),
        (75000, 1417),
        (80000, 1154),
        (85000, 840),
        (90000, 513),
        (92000, 311),
        (94000, 291),
        (96000, 136),
        (98000, 47),
        (100000, 0),
    ]
}

/// SSIMULACRA2 to butteraugli max-norm.
pub fn ssim2_to_butteraugli_max() -> (r: &'static [(u32, u32)])
    ensures
        r@ == max_knots(),
{
    let r: &'static [(u32, u32)] = &[
        (0, 25733),
        (5000, 18423),
        (10000, 15419),
        (15000, 15068),
        (20000, 14410),
        (25000, 10968),
        (30000, 9186),
        (35000, 9185),
        (40000, 9184),
        (45000, 8712),
        (50000, 8711),
        (55000, 8497),
        (60000, 7707),
        (65000, 6669),
        (70000, 5479),
        (75000, 4240),
        (80000, 3427),
        (85000, 2324),
        (90000, 1336),
        (92000, 867),
        (94000, 692),
        (96000, 438),
        (98000, 194),
        (100000, 0),
    ];
    assert(r@ =~= max_knots());
    r
}

/// SSIMULACRA2 to butteraugli 3-norm.
pub fn ssim2_to_butteraugli_pnorm3() -> (r: &'static [(u32, u32)])
    ensures
        r@ == pnorm3_knots(),
{
    let r: &'static [(u32, u32)] = &[
        (0, 8261),
        (5000, 6145),
        (10000, 5468),
        (15000, 5382),
        (20000, 5096),
        (25000, 3807),
        (30000, 3788),
        (35000, 3752),
        (40000, 3493),
        (45000, 3271),
        (50000, 2948),
        (55000, 2755),
        (60000, 2487),
        (65000, 2115),
        (70000, 1744),
        (75000, 1417),
        (80000, 1154),
        (85000, 840),
        (90000, 513),
        (92000, 311),
        (94000, 291),
        (96000, 136),
        (98000, 47),
        (100000, 0),
    ];
    assert(r@ =~= pnorm3_knots());
    r
}

/// Butteraugli max-norm to SSIMULACRA2.
pub fn butteraugli_max_to_ssim2() -> (r: &'static [(u32, u32)])
    ensures
        r@ == mirrored(max_knots()),
{
    let r: &'static [(u32, u32)] = &[
        (0, 100000),
        (194, 98000),
        (438, 96000),
        (692, 94000),
        (867, 92000),
        (1336, 90000),
        (2324, 85000),
        (3427, 80000),
        (4240, 75000),
        (5479, 70000),
        (6669, 65000),
        (7707, 60000),
        (8497, 55000),
        (8711, 50000),
        (8712, 45000),
        (9184, 40000),
        (9185, 35000),
        (9186, 30000),
        (10968, 25000),
        (14410, 20000),
        (15068, 15000),
        (15419, 10000),
        (18423, 5000),
        (25733, 0),
    ];
    assert(r@ =~= mirrored(max_knots()));
    r
}

/// Butteraugli 3-norm to SSIMULACRA2.
pub fn butteraugli_pnorm3_to_ssim2() -> (r: &'static [(u32, u32)])
    ensures
        r@ == mirrored(pnorm3_knots()),
{
    let r: &'static [(u32, u32)] = &[
        (0, 100000),
        (47, 98000),
        (136, 96000),
        (291, 94000),
        (311, 92000),
        (513, 90000),
        (840, 85000),
        (1154, 80000),
        (1417, 75000),
        (1744, 70000),
        (2115, 65000),
        (2487, 60000),
        (2755, 55000),
        (2948, 50000),
        (3271, 45000),
        (3493, 40000),
        (3752, 35000),
        (3788, 30000),
        (3807, 25000),
        (5096, 20000),
        (5382, 15000),
        (5468, 10000),
        (6145, 5000),
        (8261, 0),
    ];
    assert(r@ =~= mirrored(pnorm3_knots()));
    r
}

/// The table from a metric to SSIMULACRA2; none for SSIMULACRA2 itself.
pub fn table_to_ssim2(from: Metric) -> (r: Option<&'static [(u32, u32)]>)
    ensures
        match from {
            Metric::Ssim2 => r is None,
            Metric::ButteraugliMax => r matches Some(t) && t@ == mirrored(max_knots()),
            Metric::ButteraugliPnorm3 => r matches Some(t) && t@ == mirrored(pnorm3_knots()),
        },
{
    match from {
        Metric::Ssim2 => None,
        Metric::ButteraugliMax => Some(butteraugli_max_to_ssim2()),
        Metric::ButteraugliPnorm3 => Some(butteraugli_pnorm3_to_ssim2()),
    }
}

/// The table from SSIMULACRA2 to a metric; none for SSIMULACRA2 itself.
pub fn table_from_ssim2(to: Metric) -> (r: Option<&'static [(u32, u32)]>)
    ensures
        match to {
            Metric::Ssim2 => r is None,
            Metric::ButteraugliMax => r matches Some(t) && t@ == max_knots(),
            Metric::ButteraugliPnorm3 => r matches Some(t) && t@ == pnorm3_knots(),
        },
{
    match to {
        Metric::Ssim2 => None,
        Metric::ButteraugliMax => Some(ssim2_to_butteraugli_max()),
        Metric::ButteraugliPnorm3 => Some(ssim2_to_butteraugli_pnorm3()),
    }
}

/// Neighbouring knots that are in order put all knots in order.
proof fn lemma_ordered(t: Seq<(u32, u32)>)
    requires
        forall|i: int|
            0 <= i < t.len() - 1 ==> (#[trigger] t[i]).0 < t[i + 1].0 && t[i].1 > t[i + 1].1,
    ensures
        has_ascending_keys(t),
        has_descending_values(t),
    decreases t.len(),
{
    if t.len() > 0 {
        let before = t.drop_last();
        assert forall|i: int| 0 <= i < before.len() - 1 implies (#[trigger] before[i]).0 < before[i
            + 1].0 && before[i].1 > before[i + 1].1 by {
            assert(before[i] == t[i] && before[i + 1] == t[i + 1]);
        }
        lemma_ordered(before);
        assert forall|i: int, j: int| 0 <= i < j < t.len() implies (#[trigger] t[i]).0 < (
        #[trigger] t[j]).0 && t[i].1 > t[j].1 by {
            if j < before.len() {
                assert(before[i] == t[i] && before[j] == t[j]);
            } else {
                assert(t[j - 1].0 < t[j].0);
                if i < j - 1 {
                    assert(before[i] == t[i] && before[j - 1] == t[j - 1]);
                }
            }
        }
    }
}

/// The tables are strictly monotone: keys ascend, and better scores go with
/// lower distances, both ways.
pub proof fn law_tables_are_monotone()
    ensures
        has_ascending_keys(max_knots()) && has_descending_values(max_knots()),
        has_ascending_keys(pnorm3_knots()) && has_descending_values(pnorm3_knots()),
        has_ascending_keys(mirrored(max_knots())) && has_descending_values(mirrored(max_knots())),
        has_ascending_keys(mirrored(pnorm3_knots())) && has_descending_values(
            mirrored(pnorm3_knots()),
        ),
{
    lemma_ordered(max_knots());
    lemma_ordered(pnorm3_knots());
    lemma_mirrored(max_knots());
    lemma_mirrored(pnorm3_knots());
}

/// A monotone table is monotone the other way round.
proof fn lemma_mirrored(t: Seq<(u32, u32)>)
    requires
        has_ascending_keys(t),
        has_descending_values(t),
    ensures
        has_ascending_keys(mirrored(t)),
        has_descending_values(mirrored(t)),
{
    let m = mirrored(t);
    assert forall|i: int, j: int| 0 <= i < j < m.len() implies (#[trigger] m[i]).0 < (#[trigger] m[
    j]).0 && m[i].1 > m[j].1 by {
        assert(t[t.len() - 1 - j].1 > t[t.len() - 1 - i].1);
    }
}

/// The knots stand at every fifth point of the score up to 90 and at every second
/// from there to 100, where the distance is none.
pub proof fn law_scores_of_the_knots(i: int)
    requires
        0 <= i < 24,
    ensures
        max_knots().len() == 24,
        pnorm3_knots().len() == 24,
        i <= 18 ==> max_knots()[i].0 == 5000 * i,
        i > 18 ==> max_knots()[i].0 == 90000 + 2000 * (i - 18),
        pnorm3_knots()[i].0 == max_knots()[i].0,
        max_knots()[23].1 == 0,
        pnorm3_knots()[23].1 == 0,
{
    lemma_each_knot(i);
}

/// The distances that were measured at the knots. The worst region is never better
/// than the 3-norm over all of them.
pub proof fn law_distances_at_the_knots(i: int)
    requires
        0 <= i < 24,
    ensures
        ({
            let worst = seq![
                25733u32, 18423, 15419, 15068, 14410, 10968, 9186, 9185, 9184, 8712, 8711, 8497,
                7707, 6669, 5479, 4240, 3427, 2324, 1336, 867, 692, 438, 194, 0,
            ];
            let norm = seq![
                8261u32, 6145, 5468, 5382, 5096, 3807, 3788, 3752, 3493, 3271, 2948, 2755, 2487,
                2115, 1744, 1417, 1154, 840, 513, 311, 291, 136, 47, 0,
            ];
            &&& max_knots()[i].1 == worst[i]
            &&& pnorm3_knots()[i].1 == norm[i]
        }),
        pnorm3_knots()[i].1 <= max_knots()[i].1,
{
    lemma_each_knot(i);
}

/// One of 24 knots.
proof fn lemma_each_knot(i: int)
    requires
        0 <= i < 24,
    ensures
        i == 0 || i == 1 || i == 2 || i == 3 || i == 4 || i == 5 || i == 6 || i == 7 || i == 8 || i
            == 9 || i == 10 || i == 11 || i == 12 || i == 13 || i == 14 || i == 15 || i == 16 || i
            == 17 || i == 18 || i == 19 || i == 20 || i == 21 || i == 22 || i == 23,
{
}

/// The way back goes through the same knots, in the opposite order.
pub proof fn law_way_back(t: Seq<(u32, u32)>, i: int)
    requires
        0 <= i < t.len(),
    ensures
        mirrored(t).len() == t.len(),
        mirrored(t)[t.len() - 1 - i].0 == t[i].1,
        mirrored(t)[t.len() - 1 - i].1 == t[i].0,
{
}

} // verus!
