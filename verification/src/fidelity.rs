//! How faithfully an encoder reproduces its input.
use vstd::arithmetic::power2::pow2;
use vstd::prelude::*;

verus! {

/// What is asked of an encode: lossy, aiming at a target; lossless on pixels
/// quantized within a budget; or exact. Targets are numbers of type `Q`.
#[derive(Clone, Copy, Debug, PartialEq, Eq)]
#[non_exhaustive]
pub enum Fidelity<Q> {
    /// Lossy, aiming at a target.
    Lossy(LossyTarget<Q>),
    /// Lossless on pixels changed within a budget.
    NearLossless(NearLosslessBudget),
    /// Exact.
    Lossless,
}

/// What a lossy encode aims at, in a single pass.
#[derive(Clone, Copy, Debug, PartialEq, Eq)]
#[non_exhaustive]
pub enum LossyTarget<Q> {
    /// A SSIMULACRA2 score, the higher the better.
    ApproxSsim2(Q),
    /// A butteraugli distance of the worst region, the lower the better.
    ApproxButteraugliMax(Q),
    /// The codec's own quality dial.
    CodecSpecificQuality(Q),
}

/// How much any channel of any pixel may change, in parts of 65535 of the
/// channel's range.
#[derive(Clone, Copy, Debug, PartialEq, Eq, PartialOrd, Ord, Hash, Structural)]
pub struct NearLosslessBudget {
    parts: u16,
}

/// The parts of the range that a budget is.
impl View for NearLosslessBudget {
    type V = int;

    closed spec fn view(&self) -> int {
        self.parts as int
    }
}

impl<Q> Fidelity<Q> {
    /// Lossy, aiming at a SSIMULACRA2 score.
    #[must_use]
    pub fn ssim2(score: Q) -> (r: Self)
        ensures
            r == Fidelity::Lossy(LossyTarget::ApproxSsim2(score)),
    {
        Fidelity::Lossy(LossyTarget::ApproxSsim2(score))
    }

    /// Lossy, aiming at a butteraugli distance of the worst region.
    #[must_use]
    pub fn butteraugli_max(distance: Q) -> (r: Self)
        ensures
            r == Fidelity::Lossy(LossyTarget::ApproxButteraugliMax(distance)),
    {
        Fidelity::Lossy(LossyTarget::ApproxButteraugliMax(distance))
    }

    /// Lossy, on the codec's own scale.
    #[must_use]
    pub fn codec_quality(q: Q) -> (r: Self)
        ensures
            r == Fidelity::Lossy(LossyTarget::CodecSpecificQuality(q)),
    {
        Fidelity::Lossy(LossyTarget::CodecSpecificQuality(q))
    }

    /// What a codec with only a lossless switch and a quality dial is set to. A
    /// distance has no place on the dial, so it leaves the quality alone, and a
    /// budget becomes exact.
    pub open spec fn settings(self) -> (bool, Option<Q>) {
        match self {
            Fidelity::Lossy(LossyTarget::ApproxSsim2(q)) => (false, Some(q)),
            Fidelity::Lossy(LossyTarget::CodecSpecificQuality(q)) => (false, Some(q)),
            Fidelity::Lossy(LossyTarget::ApproxButteraugliMax(_)) => (false, None),
            Fidelity::NearLossless(_) => (true, None),
            Fidelity::Lossless => (true, None),
        }
    }

    /// The setting of the lossless switch, and of the quality dial if it is to be
    /// set.
    pub fn generic_settings(self) -> (r: (bool, Option<Q>))
        ensures
            r == self.settings(),
    {
        match self {
            Fidelity::Lossy(LossyTarget::ApproxSsim2(q)) => (false, Some(q)),
            Fidelity::Lossy(LossyTarget::CodecSpecificQuality(q)) => (false, Some(q)),
            Fidelity::Lossy(LossyTarget::ApproxButteraugliMax(_)) => (false, None),
            Fidelity::NearLossless(_) => (true, None),
            Fidelity::Lossless => (true, None),
        }
    }

    /// What a lossless switch and a quality dial amount to.
    pub open spec fn amounting_to(lossless: Option<bool>, quality: Option<Q>) -> Option<Fidelity<Q>> {
        if lossless == Some(true) {
            Some(Fidelity::Lossless)
        } else {
            match quality {
                Some(q) => Some(Fidelity::Lossy(LossyTarget::CodecSpecificQuality(q))),
                None => None,
            }
        }
    }

    /// The fidelity that a codec resolved to, from its lossless switch and its
    /// quality dial; none if it has neither.
    pub fn resolved(lossless: Option<bool>, quality: Option<Q>) -> (r: Option<Fidelity<Q>>)
        ensures
            r == Fidelity::amounting_to(lossless, quality),
    {
        if let Some(true) = lossless {
            return Some(Fidelity::Lossless);
        }
        match quality {
            Some(q) => Some(Fidelity::codec_quality(q)),
            None => None,
        }
    }

    /// Near-lossless within `budget`.
    #[must_use]
    pub fn near_lossless(budget: NearLosslessBudget) -> (r: Self)
        ensures
            r == Fidelity::<Q>::NearLossless(budget),
    {
        Fidelity::NearLossless(budget)
    }

    /// Whether exact reproduction is asked for: as such, or by a budget that
    /// allows no change.
    #[must_use]
    pub fn is_lossless(&self) -> (r: bool)
        ensures
            r == (match self {
                Fidelity::Lossless => true,
                Fidelity::NearLossless(b) => b@ == 0,
                Fidelity::Lossy(_) => false,
            }),
    {
        match self {
            Fidelity::Lossless => true,
            Fidelity::NearLossless(b) => b.is_exact(),
            Fidelity::Lossy(_) => false,
        }
    }
}

impl NearLosslessBudget {
    /// No change.
    #[allow(non_snake_case)]
    pub fn EXACT() -> (r: Self)
        ensures
            r@ == 0,
    {
        NearLosslessBudget { parts: 0 }
    }

    /// The whole range.
    #[allow(non_snake_case)]
    pub fn MAX() -> (r: Self)
        ensures
            r@ == 65535,
    {
        NearLosslessBudget { parts: 65535 }
    }

    /// Two steps of 255.
    #[allow(non_snake_case)]
    pub fn DEFAULT() -> (r: Self)
        ensures
            r@ == 514,
    {
        NearLosslessBudget::from_8bit_steps(2)
    }

    /// So many steps of 255.
    #[must_use]
    pub fn from_8bit_steps(n: u8) -> (r: Self)
        ensures
            r@ == n * 257,
    {
        NearLosslessBudget { parts: n as u16 * 257 }
    }

    /// So many steps of 65535.
    #[must_use]
    pub fn from_16bit_steps(n: u16) -> (r: Self)
        ensures
            r@ == n,
    {
        NearLosslessBudget { parts: n }
    }

    /// The budget in steps of 65535.
    #[must_use]
    pub fn to_16bit_steps(self) -> (r: u16)
        ensures
            r == self@,
    {
        self.parts
    }

    /// Whether no change is allowed.
    #[must_use]
    pub fn is_exact(self) -> (r: bool)
        ensures
            r == (self@ == 0),
    {
        self.parts == 0
    }

    /// The change that the budget allows at a bit depth, rounded down.
    #[must_use]
    pub fn max_error_at_depth(self, depth: u32) -> (r: u32)
        requires
            depth < 32,
            self@ * (pow2(depth as nat) - 1) <= u32::MAX,
        ensures
            r == self@ * (pow2(depth as nat) - 1) / 65535,
    {
        proof {
            vstd::bits::lemma_u32_pow2_no_overflow(depth as nat);
            vstd::bits::lemma_u32_shl_is_mul(1, depth);
            vstd::arithmetic::power2::lemma_pow2_pos(depth as nat);
        }
        let full: u32 = (1u32 << depth) - 1;
        assert(0 <= self.parts * full) by (nonlinear_arith);
        (self.parts as u32 * full) / 65535
    }
}

/// What a codec without fidelity control of its own reports back: losslessness
/// survives, a quality comes back on the codec's scale, and a distance is lost.
pub proof fn law_settings_resolve<Q>(f: Fidelity<Q>)
    ensures
        ({
            let (lossless, quality) = f.settings();
            let back = Fidelity::amounting_to(Some(lossless), quality);
            match f {
                Fidelity::Lossless | Fidelity::NearLossless(_) => back == Some(
                    Fidelity::<Q>::Lossless,
                ),
                Fidelity::Lossy(LossyTarget::ApproxSsim2(q)) => back == Some(
                    Fidelity::Lossy(LossyTarget::CodecSpecificQuality(q)),
                ),
                Fidelity::Lossy(LossyTarget::CodecSpecificQuality(q)) => back == Some(f),
                Fidelity::Lossy(LossyTarget::ApproxButteraugliMax(_)) => back is None,
            }
        }),
{
}

/// A budget in 8-bit steps is met exactly at eight bits, and by the same
/// fraction at sixteen.
pub proof fn law_steps_resolve_exactly(n: u8, parts: int)
    requires
        parts == n * 257,
    ensures
        parts * (pow2(8) - 1) / 65535 == n,
        parts * (pow2(16) - 1) / 65535 == parts,
{
    vstd::arithmetic::power2::lemma2_to64();
}

/// A budget is never exceeded: the change allowed at a bit depth, as a fraction
/// of that depth's range, is at most the budget.
pub proof fn law_guarantee_is_rounded_down(parts: int, depth: nat)
    requires
        0 <= parts <= 65535,
    ensures
        (parts * (pow2(depth) - 1) / 65535) * 65535 <= parts * (pow2(depth) - 1),
{
    let x = parts * (pow2(depth) - 1);
    assert((x / 65535) * 65535 <= x);
}

/// A codec that says it is lossless is, whatever its dial; any other is at its
/// dial's quality, and without one nothing is known.
pub proof fn law_resolved_fidelity<Q>(lossless: Option<bool>, quality: Option<Q>)
    ensures
        lossless == Some(true) <==> Fidelity::amounting_to(lossless, quality) == Some(
            Fidelity::<Q>::Lossless,
        ),
        lossless != Some(true) ==> (quality matches Some(q) ==> Fidelity::amounting_to(
            lossless,
            quality,
        ) == Some(Fidelity::Lossy(LossyTarget::CodecSpecificQuality(q)))),
        lossless != Some(true) && quality is None ==> Fidelity::<Q>::amounting_to(
            lossless,
            quality,
        ) is None,
{
}

/// The switch is on exactly for what is lossless or near it; the dial is set to
/// the target exactly where that is on a scale that rises with quality.
pub proof fn law_settings_of_a_fidelity<Q>(f: Fidelity<Q>, q: Q)
    ensures
        f.settings().0 <==> f is Lossless || f is NearLossless,
        f.settings().1 == Some(q) <==> f == Fidelity::Lossy(LossyTarget::ApproxSsim2(q)) || f
            == Fidelity::Lossy(LossyTarget::CodecSpecificQuality(q)),
{
}

} // verus!
