//! What each color policy emits, source by source and target by target.
use crate::capabilities::EncodeCapabilities;
use crate::cicp::Cicp;
use crate::color::{
    color_plan, facts_of, ColorEmitFields, ColorEmitPolicy, IccDisposition, ProfileFacts,
};
use crate::exif::codec::{u32_at, ByteOrder};
use crate::icc::{
    cicp_entry, cicp_entry_from, cicp_signature, icc_identified_cicp, icc_tagged_cicp,
    profile_space, ProfileSpace,
};
use crate::info::SourceColor;
use vstd::prelude::*;

verus! {

/// Whether a source is color that code points can describe: neither gray nor CMYK
/// by its profile, and not of a single channel.
pub open spec fn is_color(src: SourceColor, facts: ProfileFacts) -> bool {
    facts.space != Some(ProfileSpace::Gray) && facts.space != Some(ProfileSpace::Cmyk)
        && src.channel_count != Some(1u8)
}

/// Whether code points are sRGB's: BT.709 primaries (1), sRGB curve (13), RGB (0),
/// full range.
pub open spec fn is_srgb(c: Cicp) -> bool {
    c.color_primaries == 1 && c.transfer_characteristics == 13 && c.matrix_coefficients == 0
        && c.full_range
}

// ── Profiles that are kept ──────────────────────────────────────────────────

/// The balanced policy keeps a profile unless it is known to be sRGB or the target
/// can do with code points alone, whatever the profile's header says.
pub proof fn law_balanced_keeps_profiles(
    src: SourceColor,
    facts: ProfileFacts,
    target: EncodeCapabilities,
)
    requires
        src.icc_profile is Some,
        !facts.srgb,
        !target.cicp_safe_sole_carrier,
    ensures
        color_plan(src, facts, target, ColorEmitPolicy::Balanced).icc == IccDisposition::KeepSource,
{
}

/// Of a color source the balanced policy drops a profile exactly where code points
/// go out in its place and either is enough: the profile is known to be sRGB, or
/// the target can do with code points alone.
pub proof fn law_balanced_profile(src: SourceColor, facts: ProfileFacts, target: EncodeCapabilities)
    requires
        src.icc_profile is Some,
        is_color(src, facts),
    ensures
        ({
            let plan = color_plan(src, facts, target, ColorEmitPolicy::Balanced);
            &&& plan.icc == IccDisposition::Drop <==> plan.cicp is Some && (facts.srgb
                || target.cicp_safe_sole_carrier)
            &&& plan.icc == IccDisposition::KeepSource <==> plan.cicp is None || (!facts.srgb
                && !target.cicp_safe_sole_carrier)
        }),
{
}

/// The policies for compatibility and for passing color on never drop a profile;
/// the compact one drops it exactly where code points of a color source go out in
/// its place.
pub proof fn law_profiles_by_policy(src: SourceColor, facts: ProfileFacts, target: EncodeCapabilities)
    requires
        src.icc_profile is Some,
    ensures
        color_plan(src, facts, target, ColorEmitPolicy::Compatibility).icc
            == IccDisposition::KeepSource,
        color_plan(src, facts, target, ColorEmitPolicy::Verbatim).icc == IccDisposition::KeepSource,
        ({
            let plan = color_plan(src, facts, target, ColorEmitPolicy::Compact);
            &&& plan.icc == IccDisposition::Drop <==> plan.cicp is Some
            &&& plan.icc == IccDisposition::KeepSource <==> plan.cicp is None
        }),
{
}

/// A custom policy does with the profile of a color source as its retention says.
pub proof fn law_custom_profile(
    src: SourceColor,
    facts: ProfileFacts,
    target: EncodeCapabilities,
    f: ColorEmitFields,
)
    requires
        src.icc_profile is Some,
        is_color(src, facts),
    ensures
        ({
            let plan = color_plan(src, facts, target, ColorEmitPolicy::Custom(f));
            &&& f.icc is Keep ==> plan.icc == IccDisposition::KeepSource
            &&& f.icc is Drop ==> plan.icc == IccDisposition::Drop
            &&& f.icc is KeepNonSrgb ==> (plan.icc == IccDisposition::Drop <==> facts.srgb)
            &&& f.icc is DropIfCicpRepresentable ==> (plan.icc == IccDisposition::Drop
                <==> plan.cicp is Some)
            &&& f.icc is DropIfCicpSafeSoleCarrier ==> (plan.icc == IccDisposition::Drop
                <==> plan.cicp is Some && target.cicp_safe_sole_carrier)
            &&& plan.icc == IccDisposition::Drop || plan.icc == IccDisposition::KeepSource
        }),
{
}

/// A source that is gray or CMYK by its profile, or has a single channel, keeps its
/// profile and gets no code points, and no profile is made for it.
pub proof fn law_gray_is_left_alone(
    src: SourceColor,
    facts: ProfileFacts,
    target: EncodeCapabilities,
    policy: ColorEmitPolicy,
)
    requires
        facts.space == Some(ProfileSpace::Gray) || facts.space == Some(ProfileSpace::Cmyk)
            || src.channel_count == Some(1u8),
    ensures
        color_plan(src, facts, target, policy).cicp is None,
        src.icc_profile is Some ==> color_plan(src, facts, target, policy).icc
            == IccDisposition::KeepSource,
        src.icc_profile is None ==> color_plan(src, facts, target, policy).icc
            == IccDisposition::Drop,
{
}

// ── Code points ─────────────────────────────────────────────────────────────

/// Of a color source, code points go out exactly where there are any (the source's
/// own before its profile's) and the target takes them: for compatibility and
/// balance where it is a valid carrier, for compactness wherever it has the field.
/// Passing color on emits the source's own alone.
pub proof fn law_code_points_by_policy(
    src: SourceColor,
    facts: ProfileFacts,
    target: EncodeCapabilities,
    c: Cicp,
)
    requires
        is_color(src, facts),
    ensures
        ({
            let there = src.cicp == Some(c) || (src.cicp is None && facts.cicp == Some(c));
            &&& color_plan(src, facts, target, ColorEmitPolicy::Balanced).cicp == Some(c)
                <==> there && target.cicp && target.cicp_is_valid_carrier
            &&& color_plan(src, facts, target, ColorEmitPolicy::Compatibility).cicp == Some(c)
                <==> there && target.cicp && target.cicp_is_valid_carrier
            &&& color_plan(src, facts, target, ColorEmitPolicy::Compact).cicp == Some(c)
                <==> there && target.cicp
            &&& color_plan(src, facts, target, ColorEmitPolicy::Verbatim).cicp == Some(c)
                <==> src.cicp == Some(c) && target.cicp
        }),
{
}

/// A custom policy emits the code points of a color source as it says: never,
/// where the target is a valid carrier, or wherever it has the field.
pub proof fn law_custom_code_points(
    src: SourceColor,
    facts: ProfileFacts,
    target: EncodeCapabilities,
    f: ColorEmitFields,
    c: Cicp,
)
    requires
        is_color(src, facts),
    ensures
        ({
            let there = src.cicp == Some(c) || (src.cicp is None && facts.cicp == Some(c));
            let plan = color_plan(src, facts, target, ColorEmitPolicy::Custom(f));
            &&& f.cicp is Never ==> plan.cicp is None
            &&& f.cicp is WhereValidCarrier ==> (plan.cicp == Some(c) <==> there && target.cicp
                && target.cicp_is_valid_carrier)
            &&& f.cicp is WhereverSupported ==> (plan.cicp == Some(c) <==> there && target.cicp)
        }),
{
}

// ── Profiles that are made ──────────────────────────────────────────────────

/// For a color source without a profile one is made of its code points, unless
/// they are sRGB's: for compatibility always; for balance where the target cannot
/// do with code points alone, or gets none; for compactness and under a custom
/// policy where the target gets none; for passing color on never.
pub proof fn law_profiles_are_made(
    src: SourceColor,
    facts: ProfileFacts,
    target: EncodeCapabilities,
    policy: ColorEmitPolicy,
    c: Cicp,
)
    requires
        src.icc_profile is None,
        is_color(src, facts),
        src.cicp == Some(c) || (src.cicp is None && facts.cicp == Some(c)),
    ensures
        ({
            let plan = color_plan(src, facts, target, policy);
            let made = plan.icc == IccDisposition::SynthesizeFrom(c);
            &&& is_srgb(c) ==> plan.icc == IccDisposition::Drop
            &&& policy is Verbatim ==> plan.icc == IccDisposition::Drop
            &&& !is_srgb(c) && policy is Compatibility ==> made
            &&& !is_srgb(c) && policy is Balanced ==> (made <==> plan.cicp is None
                || !target.cicp_safe_sole_carrier)
            &&& !is_srgb(c) && (policy is Compact || policy is Custom) ==> (made
                <==> plan.cicp is None)
            &&& made || plan.icc == IccDisposition::Drop
        }),
{
}

/// Without a profile and without code points nothing is emitted.
pub proof fn law_nothing_of_nothing(
    src: SourceColor,
    facts: ProfileFacts,
    target: EncodeCapabilities,
    policy: ColorEmitPolicy,
)
    requires
        src.icc_profile is None,
        src.cicp is None,
        facts.cicp is None,
    ensures
        color_plan(src, facts, target, policy).cicp is None,
        color_plan(src, facts, target, policy).icc == IccDisposition::Drop,
{
}

/// A policy's fields: compatibility and passing on keep profiles and emit where
/// valid, balance drops a profile where code points do alone, compactness wherever
/// they go out; a custom policy is its fields.
pub proof fn law_policy_fields(policy: ColorEmitPolicy)
    ensures
        policy is Compatibility || policy is Verbatim ==> policy.resolved().icc is Keep
            && policy.resolved().cicp is WhereValidCarrier,
        policy is Balanced ==> policy.resolved().icc is DropIfCicpSafeSoleCarrier
            && policy.resolved().cicp is WhereValidCarrier,
        policy is Compact ==> policy.resolved().icc is DropIfCicpRepresentable
            && policy.resolved().cicp is WhereverSupported,
        policy matches ColorEmitPolicy::Custom(f) ==> policy.resolved() == f,
{
}

// ── Profiles ────────────────────────────────────────────────────────────────

/// A profile's color space is the signature in bytes 16 to 19 of its header: `RGB `,
/// `GRAY` or `CMYK`.
pub proof fn law_profile_signature(icc: Seq<u8>)
    ensures
        profile_space(icc) == Some(ProfileSpace::Rgb) <==> icc.len() >= 20 && icc[16] == 0x52
            && icc[17] == 0x47 && icc[18] == 0x42 && icc[19] == 0x20,
        profile_space(icc) == Some(ProfileSpace::Gray) <==> icc.len() >= 20 && icc[16] == 0x47
            && icc[17] == 0x52 && icc[18] == 0x41 && icc[19] == 0x59,
        profile_space(icc) == Some(ProfileSpace::Cmyk) <==> icc.len() >= 20 && icc[16] == 0x43
            && icc[17] == 0x4D && icc[18] == 0x59 && icc[19] == 0x4B,
{
    if icc.len() >= 20 {
        let s = icc.subrange(16, 20);
        assert(s[0] == icc[16] && s[1] == icc[17] && s[2] == icc[18] && s[3] == icc[19]);
        let r = seq![0x52u8, 0x47, 0x42, 0x20];
        let g = seq![0x47u8, 0x52, 0x41, 0x59];
        let c = seq![0x43u8, 0x4D, 0x59, 0x4B];
        assert(r[0] == 0x52 && r[1] == 0x47 && r[2] == 0x42 && r[3] == 0x20);
        assert(g[0] == 0x47 && g[1] == 0x52 && g[2] == 0x41 && g[3] == 0x59);
        assert(c[0] == 0x43 && c[1] == 0x4D && c[2] == 0x59 && c[3] == 0x4B);
        if icc[16] == 0x52 && icc[17] == 0x47 && icc[18] == 0x42 && icc[19] == 0x20 {
            assert(s =~= r);
        }
        if icc[16] == 0x47 && icc[17] == 0x52 && icc[18] == 0x41 && icc[19] == 0x59 {
            assert(s =~= g);
        }
        if icc[16] == 0x43 && icc[17] == 0x4D && icc[18] == 0x59 && icc[19] == 0x4B {
            assert(s =~= c);
        }
    }
}

/// What a profile says of its color: its header's space; the code points that it is
/// tagged with, before those that it is known by; and whether it is known to be
/// sRGB, which no tag makes it.
pub proof fn law_facts_of_a_profile(icc: Seq<u8>)
    ensures
        facts_of(Some(icc)).space == profile_space(icc),
        icc_tagged_cicp(icc) matches Some(c) ==> facts_of(Some(icc)).cicp == Some(c),
        icc_tagged_cicp(icc) is None ==> facts_of(Some(icc)).cicp == icc_identified_cicp(icc),
        facts_of(Some(icc)).srgb <==> (icc_identified_cicp(icc) matches Some(c) && is_srgb(c)),
        facts_of(None).space is None,
        facts_of(None).cicp is None,
        !facts_of(None).srgb,
{
}

/// Whether `cicp` stands at `o`.
pub open spec fn says_cicp(icc: Seq<u8>, o: int) -> bool {
    icc[o] == 0x63 && icc[o + 1] == 0x69 && icc[o + 2] == 0x63 && icc[o + 3] == 0x70
}

/// The signature, byte by byte.
proof fn lemma_says_cicp(icc: Seq<u8>, o: int)
    requires
        0 <= o,
        o + 4 <= icc.len(),
    ensures
        says_cicp(icc, o) <==> icc.subrange(o, o + 4) =~= cicp_signature(),
{
    let s = icc.subrange(o, o + 4);
    let c = cicp_signature();
    assert(s[0] == icc[o] && s[1] == icc[o + 1] && s[2] == icc[o + 2] && s[3] == icc[o + 3]);
    assert(c[0] == 0x63 && c[1] == 0x69 && c[2] == 0x63 && c[3] == 0x70);
    if says_cicp(icc, o) {
        assert(s =~= c);
    }
}

/// The first of `n` entries from `at` on with the signature is the `k`-th.
proof fn lemma_first_cicp(icc: Seq<u8>, at: int, n: nat, k: int)
    requires
        0 <= at,
        0 <= k < n,
        at + 12 * k + 12 <= icc.len(),
        says_cicp(icc, at + 12 * k),
        forall|j: int| 0 <= j < k ==> !#[trigger] says_cicp(icc, at + 12 * j),
    ensures
        cicp_entry_from(icc, at, n) == Some(at + 12 * k),
    decreases n,
{
    lemma_says_cicp(icc, at);
    if k > 0 {
        assert(!says_cicp(icc, at + 12 * 0));
        assert forall|j: int| 0 <= j < k - 1 implies !#[trigger] says_cicp(icc, at + 12 + 12 * j) by {
            assert(at + 12 + 12 * j == at + 12 * (j + 1));
            assert(!says_cicp(icc, at + 12 * (j + 1)));
        }
        assert(at + 12 + 12 * (k - 1) == at + 12 * k);
        lemma_first_cicp(icc, at + 12, (n - 1) as nat, k - 1);
    }
}

/// A profile's code points are those of the first entry with the signature `cicp`
/// in its tag table, which starts at byte 132 with twelve bytes an entry: the data
/// where the entry points, at least twelve bytes, repeats the signature, and its
/// last four bytes are primaries, transfer, matrix and range. Of an entry that does
/// not lead to such data nothing is taken.
pub proof fn law_cicp_tag_is_read(icc: Seq<u8>, k: int)
    requires
        icc.len() >= 132,
        icc[36] == 0x61 && icc[37] == 0x63 && icc[38] == 0x73 && icc[39] == 0x70,
        0 <= k < 200,
        k < u32_at(icc, 128, ByteOrder::Big),
        132 + 12 * k + 12 <= icc.len(),
        says_cicp(icc, 132 + 12 * k),
        forall|j: int| 0 <= j < k ==> !#[trigger] says_cicp(icc, 132 + 12 * j),
    ensures
        ({
            let off = u32_at(icc, 132 + 12 * k + 4, ByteOrder::Big) as int;
            let size = u32_at(icc, 132 + 12 * k + 8, ByteOrder::Big);
            let sound = size >= 12 && off + 12 <= icc.len() && says_cicp(icc, off);
            &&& sound ==> icc_tagged_cicp(icc) == Some(
                Cicp {
                    color_primaries: icc[off + 8],
                    transfer_characteristics: icc[off + 9],
                    matrix_coefficients: icc[off + 10],
                    full_range: icc[off + 11] != 0,
                },
            )
            &&& !sound ==> icc_tagged_cicp(icc) is None
        }),
{
    assert(icc.subrange(36, 40) =~= seq![0x61u8, 0x63, 0x73, 0x70]);
    let count = u32_at(icc, 128, ByteOrder::Big) as nat;
    let n: nat = if count <= 200 { count } else { 200 };
    lemma_first_cicp(icc, 132, n, k);
    assert(cicp_entry(icc) == Some(132 + 12 * k));
    let off = u32_at(icc, 132 + 12 * k + 4, ByteOrder::Big) as int;
    if off + 12 <= icc.len() {
        lemma_says_cicp(icc, off);
    }
}

/// What has no profile signature (`acsp` at byte 36) carries no code points.
pub proof fn law_no_profile_no_code_points(icc: Seq<u8>)
    requires
        icc.len() < 132 || icc[36] != 0x61 || icc[37] != 0x63 || icc[38] != 0x73 || icc[39] != 0x70,
    ensures
        icc_tagged_cicp(icc) is None,
{
    if icc.len() >= 132 {
        let s = icc.subrange(36, 40);
        let c = seq![0x61u8, 0x63, 0x73, 0x70];
        assert(s[0] == icc[36] && s[1] == icc[37] && s[2] == icc[38] && s[3] == icc[39]);
        assert(c[0] == 0x61 && c[1] == 0x63 && c[2] == 0x73 && c[3] == 0x70);
    }
}

} // verus!
