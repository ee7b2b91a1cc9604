//! How an image's color description is emitted: ICC profile, CICP code points,
//! or both.
use crate::bytes::shared_view;
use crate::capabilities::EncodeCapabilities;
use crate::cicp::Cicp;
use crate::icc::{
    icc_identified_cicp, icc_tagged_cicp, identified_cicp, is_common_srgb, offset_fits,
    profile_color_space, profile_space, tagged_cicp, ProfileSpace,
};
use crate::info::SourceColor;
use crate::metadata::policy::IccRetention;
use vstd::prelude::*;

verus! {

/// What to aim for when emitting a color description.
#[derive(Clone, Copy, Debug, PartialEq, Eq, Structural)]
#[non_exhaustive]
pub enum ColorEmitPolicy {
    /// Always embed an ICC profile; add CICP where it is reliable.
    Compatibility,
    /// The default. CICP where the format has a standardized carrier; a
    /// redundant ICC profile is dropped where CICP is safe alone, or where the
    /// profile is plain sRGB.
    Balanced,
    /// Smallest: CICP wherever the format carries it, and then no ICC profile.
    Compact,
    /// The source's own signals, unchanged.
    Verbatim,
    /// Explicit fields.
    Custom(ColorEmitFields),
}

/// Whether CICP is emitted.
#[derive(Clone, Copy, Debug, PartialEq, Eq, Structural)]
#[non_exhaustive]
pub enum CicpEmission {
    /// Where the format has a standardized carrier.
    WhereValidCarrier,
    /// Wherever the format has any carrier.
    WhereverSupported,
    /// Never.
    Never,
}

/// The fields behind a [`ColorEmitPolicy`].
#[derive(Clone, Copy, Debug, PartialEq, Eq, Structural)]
#[non_exhaustive]
pub struct ColorEmitFields {
    /// When to drop the ICC profile.
    pub icc: IccRetention,
    /// Whether to emit CICP.
    pub cicp: CicpEmission,
}

/// What to do with the ICC profile.
#[derive(Clone, Copy, Debug, PartialEq, Eq, Structural)]
#[non_exhaustive]
pub enum IccDisposition {
    /// Embed the source's profile.
    KeepSource,
    /// Embed a profile made from this description.
    SynthesizeFrom(Cicp),
    /// Embed none.
    Drop,
}

/// What to emit of an image's color description.
#[derive(Clone, Copy, Debug, PartialEq, Eq, Structural)]
#[non_exhaustive]
pub struct ColorEmitPlan {
    /// Code points to write.
    pub cicp: Option<Cicp>,
    /// What to do with the ICC profile.
    pub icc: IccDisposition,
}

/// What the source's ICC profile says of its color; all absent without one.
#[derive(Clone, Copy, Debug, PartialEq, Eq, Structural)]
pub struct ProfileFacts {
    /// The color space in the profile's header.
    pub space: Option<ProfileSpace>,
    /// The code points that describe the profile's color.
    pub cicp: Option<Cicp>,
    /// Whether the profile is recognized as sRGB.
    pub srgb: bool,
}

impl ColorEmitFields {
    /// Explicit fields.
    pub fn new(icc: IccRetention, cicp: CicpEmission) -> (r: Self)
        ensures
            r == (ColorEmitFields { icc, cicp }),
    {
        ColorEmitFields { icc, cicp }
    }
}

impl Default for ColorEmitFields {
    fn default() -> (r: Self)
        ensures
            r == ColorEmitPolicy::Balanced.resolved(),
    {
        ColorEmitFields {
            icc: IccRetention::DropIfCicpSafeSoleCarrier,
            cicp: CicpEmission::WhereValidCarrier,
        }
    }
}

impl Default for CicpEmission {
    fn default() -> (r: Self)
        ensures
            r == CicpEmission::WhereValidCarrier,
    {
        CicpEmission::WhereValidCarrier
    }
}

impl Default for ColorEmitPolicy {
    fn default() -> (r: Self)
        ensures
            r == ColorEmitPolicy::Balanced,
    {
        ColorEmitPolicy::Balanced
    }
}

impl ColorEmitPolicy {
    /// The fields that a policy stands for.
    pub open spec fn resolved(self) -> ColorEmitFields {
        match self {
            ColorEmitPolicy::Compatibility | ColorEmitPolicy::Verbatim => ColorEmitFields {
                icc: IccRetention::Keep,
                cicp: CicpEmission::WhereValidCarrier,
            },
            ColorEmitPolicy::Balanced => ColorEmitFields {
                icc: IccRetention::DropIfCicpSafeSoleCarrier,
                cicp: CicpEmission::WhereValidCarrier,
            },
            ColorEmitPolicy::Compact => ColorEmitFields {
                icc: IccRetention::DropIfCicpRepresentable,
                cicp: CicpEmission::WhereverSupported,
            },
            ColorEmitPolicy::Custom(f) => f,
        }
    }

    /// Resolve a policy to its fields.
    pub fn fields(&self) -> (r: ColorEmitFields)
        ensures
            r == self.resolved(),
    {
        match self {
            ColorEmitPolicy::Compatibility => ColorEmitFields {
                icc: IccRetention::Keep,
                cicp: CicpEmission::WhereValidCarrier,
            },
            ColorEmitPolicy::Balanced => ColorEmitFields {
                icc: IccRetention::DropIfCicpSafeSoleCarrier,
                cicp: CicpEmission::WhereValidCarrier,
            },
            ColorEmitPolicy::Compact => ColorEmitFields {
                icc: IccRetention::DropIfCicpRepresentable,
                cicp: CicpEmission::WhereverSupported,
            },
            ColorEmitPolicy::Verbatim => ColorEmitFields {
                icc: IccRetention::Keep,
                cicp: CicpEmission::WhereValidCarrier,
            },
            ColorEmitPolicy::Custom(f) => *f,
        }
    }
}

// ── The plan ────────────────────────────────────────────────────────────────

/// The sRGB description.
pub open spec fn srgb() -> Cicp {
    Cicp::of(1, 13, 0, true)
}

/// Whether code points cannot describe the source: it is gray or CMYK.
pub open spec fn beyond_cicp(src: SourceColor, facts: ProfileFacts) -> bool {
    facts.space == Some(ProfileSpace::Gray) || facts.space == Some(ProfileSpace::Cmyk)
        || src.channel_count == Some(1u8)
}

/// The code points that describe the source: its own, or those of its profile.
pub open spec fn representable(src: SourceColor, facts: ProfileFacts) -> Option<Cicp> {
    if src.cicp is Some {
        src.cicp
    } else {
        facts.cicp
    }
}

/// The code points that are emitted.
pub open spec fn emitted_cicp(
    src: SourceColor,
    facts: ProfileFacts,
    target: EncodeCapabilities,
    policy: ColorEmitPolicy,
) -> Option<Cicp> {
    if !target.cicp {
        None
    } else if policy == ColorEmitPolicy::Verbatim {
        src.cicp
    } else {
        match policy.resolved().cicp {
            CicpEmission::Never => None,
            CicpEmission::WhereValidCarrier => if target.cicp_is_valid_carrier {
                representable(src, facts)
            } else {
                None
            },
            CicpEmission::WhereverSupported => representable(src, facts),
        }
    }
}

/// Whether the source's profile is dropped; `emitted` says whether code points
/// are emitted in its place.
pub open spec fn drops_profile(
    facts: ProfileFacts,
    target: EncodeCapabilities,
    policy: ColorEmitPolicy,
    emitted: bool,
) -> bool {
    ||| policy == ColorEmitPolicy::Balanced && emitted && facts.srgb
    ||| match policy.resolved().icc {
        IccRetention::Drop => true,
        IccRetention::Keep => false,
        IccRetention::KeepNonSrgb => facts.srgb,
        IccRetention::DropIfCicpRepresentable => emitted,
        IccRetention::DropIfCicpSafeSoleCarrier => emitted && target.cicp_safe_sole_carrier,
    }
}

/// Whether a profile is made for a source without one: where no code points
/// are emitted, and under a policy that wants a profile beside them. sRGB is
/// what consumers assume without a profile.
pub open spec fn wants_profile(
    described: Cicp,
    target: EncodeCapabilities,
    policy: ColorEmitPolicy,
    emitted: bool,
) -> bool {
    &&& described != srgb()
    &&& {
        ||| !emitted && policy != ColorEmitPolicy::Verbatim
        ||| policy == ColorEmitPolicy::Compatibility
        ||| policy == ColorEmitPolicy::Balanced && !target.cicp_safe_sole_carrier
    }
}

/// What is done with the profile.
pub open spec fn icc_disposition(
    src: SourceColor,
    facts: ProfileFacts,
    target: EncodeCapabilities,
    policy: ColorEmitPolicy,
) -> IccDisposition {
    let emitted = emitted_cicp(src, facts, target, policy) is Some;
    if src.icc_profile is Some {
        if drops_profile(facts, target, policy, emitted) {
            IccDisposition::Drop
        } else {
            IccDisposition::KeepSource
        }
    } else {
        match representable(src, facts) {
            Some(c) if wants_profile(c, target, policy, emitted) => IccDisposition::SynthesizeFrom(
                c,
            ),
            _ => IccDisposition::Drop,
        }
    }
}

/// The plan for a source whose profile has the facts `facts`. Where code points
/// cannot describe the source its profile is all there is, and is kept.
pub open spec fn color_plan(
    src: SourceColor,
    facts: ProfileFacts,
    target: EncodeCapabilities,
    policy: ColorEmitPolicy,
) -> ColorEmitPlan {
    if beyond_cicp(src, facts) {
        ColorEmitPlan {
            cicp: None,
            icc: if src.icc_profile is Some {
                IccDisposition::KeepSource
            } else {
                IccDisposition::Drop
            },
        }
    } else {
        ColorEmitPlan {
            cicp: emitted_cicp(src, facts, target, policy),
            icc: icc_disposition(src, facts, target, policy),
        }
    }
}

/// The facts of a profile: its `cicp` tag describes it, or else the code points
/// that it is known by.
pub open spec fn facts_of(icc: Option<Seq<u8>>) -> ProfileFacts {
    match icc {
        None => ProfileFacts { space: None, cicp: None, srgb: false },
        Some(b) => ProfileFacts {
            space: profile_space(b),
            cicp: if icc_tagged_cicp(b) is Some {
                icc_tagged_cicp(b)
            } else {
                icc_identified_cicp(b)
            },
            srgb: icc_identified_cicp(b) == Some(srgb()),
        },
    }
}

// ── Resolving ───────────────────────────────────────────────────────────────

/// The code points that describe a profile: those of its `cicp` tag, or else
/// those that it is known by.
fn described_by(icc: &[u8]) -> (r: Option<Cicp>)
    ensures
        r == facts_of(Some(icc@)).cicp,
{
    let tagged = if offset_fits(icc) {
        tagged_cicp(icc)
    } else {
        None
    };
    match tagged {
        Some(c) => Some(c),
        None => identified_cicp(icc),
    }
}

/// What the source's ICC profile says of its color.
pub fn profile_facts(src: &SourceColor) -> (r: ProfileFacts)
    ensures
        r == facts_of(shared_view(src.icc_profile)),
{
    match &src.icc_profile {
        None => ProfileFacts { space: None, cicp: None, srgb: false },
        Some(b) => ProfileFacts {
            space: profile_color_space(b),
            cicp: described_by(b),
            srgb: is_common_srgb(b),
        },
    }
}

/// The plan for a source whose profile has the facts `facts`.
pub fn plan_color_emit(
    src: &SourceColor,
    facts: ProfileFacts,
    target: &EncodeCapabilities,
    policy: ColorEmitPolicy,
) -> (r: ColorEmitPlan)
    ensures
        r == color_plan(*src, facts, *target, policy),
{
    let fields = policy.fields();
    let has_icc = src.icc_profile.is_some();
    let is_gray = facts.space == Some(ProfileSpace::Gray) || src.channel_count == Some(1u8);
    let is_cmyk = facts.space == Some(ProfileSpace::Cmyk);
    if is_gray || is_cmyk {
        let icc = if has_icc {
            IccDisposition::KeepSource
        } else {
            IccDisposition::Drop
        };
        return ColorEmitPlan { cicp: None, icc };
    }
    let described = if src.cicp.is_some() {
        src.cicp
    } else {
        facts.cicp
    };
    let verbatim = policy == ColorEmitPolicy::Verbatim;
    let emits = target.cicp && (verbatim || match fields.cicp {
        CicpEmission::Never => false,
        CicpEmission::WhereValidCarrier => target.cicp_is_valid_carrier,
        CicpEmission::WhereverSupported => true,
    });
    let cicp = if !emits {
        None
    } else if verbatim {
        src.cicp
    } else {
        described
    };
    let emitted = cicp.is_some();
    if has_icc {
        let by_rule = match fields.icc {
            IccRetention::Drop => true,
            IccRetention::Keep => false,
            IccRetention::KeepNonSrgb => facts.srgb,
            IccRetention::DropIfCicpRepresentable => emitted,
            IccRetention::DropIfCicpSafeSoleCarrier => emitted && target.cicp_safe_sole_carrier,
        };
        let redundant = policy == ColorEmitPolicy::Balanced && emitted && facts.srgb;
        let icc = if by_rule || redundant {
            IccDisposition::Drop
        } else {
            IccDisposition::KeepSource
        };
        return ColorEmitPlan { cicp, icc };
    }
    let beside = policy == ColorEmitPolicy::Compatibility || (policy == ColorEmitPolicy::Balanced
        && !target.cicp_safe_sole_carrier);
    let icc = match described {
        Some(c) => if c != Cicp::SRGB() && ((!emitted && !verbatim) || beside) {
            IccDisposition::SynthesizeFrom(c)
        } else {
            IccDisposition::Drop
        },
        None => IccDisposition::Drop,
    };
    ColorEmitPlan { cicp, icc }
}

/// Reconcile a source's color description with what a target can carry. The
/// profile is searched for code points only where the plan depends on them.
pub fn resolve_color_emit(
    src: &SourceColor,
    target: &EncodeCapabilities,
    policy: ColorEmitPolicy,
) -> (r: ColorEmitPlan)
    ensures
        r == color_plan(*src, facts_of(shared_view(src.icc_profile)), *target, policy),
{
    let facts = match &src.icc_profile {
        None => ProfileFacts { space: None, cicp: None, srgb: false },
        Some(b) => {
            let space = profile_color_space(b);
            let beyond = space == Some(ProfileSpace::Gray) || space == Some(ProfileSpace::Cmyk)
                || src.channel_count == Some(1u8);
            let cicp = if beyond || src.cicp.is_some() {
                None
            } else {
                described_by(b)
            };
            ProfileFacts { space, cicp, srgb: !beyond && is_common_srgb(b) }
        },
    };
    plan_color_emit(src, facts, target, policy)
}

// ── Laws ────────────────────────────────────────────────────────────────────

/// Code points go only where the target has a carrier, and are those of the
/// source.
pub proof fn law_cicp_needs_a_carrier(
    src: SourceColor,
    facts: ProfileFacts,
    target: EncodeCapabilities,
    policy: ColorEmitPolicy,
)
    ensures
        color_plan(src, facts, target, policy).cicp matches Some(c) ==> target.cicp
            && representable(src, facts) == Some(c) && !beyond_cicp(src, facts),
{
}

/// A gray or CMYK source keeps its profile and gets no code points, whatever
/// the policy.
pub proof fn law_gray_and_cmyk_keep_their_profile(
    src: SourceColor,
    facts: ProfileFacts,
    target: EncodeCapabilities,
    policy: ColorEmitPolicy,
)
    requires
        beyond_cicp(src, facts),
    ensures
        color_plan(src, facts, target, policy).cicp is None,
        color_plan(src, facts, target, policy).icc == (if src.icc_profile is Some {
            IccDisposition::KeepSource
        } else {
            IccDisposition::Drop
        }),
{
}

/// Under the compatibility, balanced and compact policies the color survives: a
/// profile is dropped only for code points, and described color other than sRGB
/// goes out in one form or the other.
pub proof fn law_color_survives(
    src: SourceColor,
    facts: ProfileFacts,
    target: EncodeCapabilities,
    policy: ColorEmitPolicy,
)
    requires
        !(policy is Custom),
        policy != ColorEmitPolicy::Verbatim,
    ensures
        ({
            let plan = color_plan(src, facts, target, policy);
            &&& src.icc_profile is Some ==> plan.icc == IccDisposition::KeepSource
                || plan.cicp is Some
            &&& !beyond_cicp(src, facts) ==> (src.cicp matches Some(c) ==> c != srgb() ==> plan.icc
                != IccDisposition::Drop || plan.cicp == Some(c))
        }),
{
}

/// The verbatim policy derives nothing and strips nothing: the profile stays,
/// none is made, and code points are the source's own, where there is a carrier.
pub proof fn law_verbatim_changes_nothing(
    src: SourceColor,
    facts: ProfileFacts,
    target: EncodeCapabilities,
)
    ensures
        ({
            let plan = color_plan(src, facts, target, ColorEmitPolicy::Verbatim);
            &&& plan.icc == (if src.icc_profile is Some {
                IccDisposition::KeepSource
            } else {
                IccDisposition::Drop
            })
            &&& !beyond_cicp(src, facts) && target.cicp ==> plan.cicp == src.cicp
        }),
{
}

/// The compatibility policy always embeds a profile: the source's own, or for a
/// described color other than sRGB one made from the description.
pub proof fn law_compatibility_embeds_a_profile(
    src: SourceColor,
    facts: ProfileFacts,
    target: EncodeCapabilities,
)
    ensures
        ({
            let plan = color_plan(src, facts, target, ColorEmitPolicy::Compatibility);
            &&& src.icc_profile is Some ==> plan.icc == IccDisposition::KeepSource
            &&& src.icc_profile is None && !beyond_cicp(src, facts) ==> (representable(
                src,
                facts,
            ) matches Some(c) ==> c != srgb() ==> plan.icc == IccDisposition::SynthesizeFrom(c))
        }),
{
}

/// No profile is made of sRGB, which consumers assume, nor of a source that has
/// one.
pub proof fn law_no_redundant_profile_is_made(
    src: SourceColor,
    facts: ProfileFacts,
    target: EncodeCapabilities,
    policy: ColorEmitPolicy,
)
    ensures
        color_plan(src, facts, target, policy).icc matches IccDisposition::SynthesizeFrom(c) ==> c
            != srgb() && src.icc_profile is None && representable(src, facts) == Some(c),
{
}

/// The compact policy never emits both forms of one color.
pub proof fn law_compact_emits_one_form(
    src: SourceColor,
    facts: ProfileFacts,
    target: EncodeCapabilities,
)
    ensures
        color_plan(src, facts, target, ColorEmitPolicy::Compact).cicp is Some ==> color_plan(
            src,
            facts,
            target,
            ColorEmitPolicy::Compact,
        ).icc == IccDisposition::Drop,
{
}

} // verus!
