//! Which codec of a set serves a format, and which format is detected.
use crate::cicp::TransferFunction;
use crate::error::phrase::Phrase;
use crate::estimate::{EnvironmentView, ImageView};
use crate::format::builtins::{builtin_order, described, looks_like};
use crate::format::definition::{same_format, ImageFormat, ImageFormatDefinition};
use crate::pixels::{AlphaMode, ChannelLayout, ChannelType, PixelDescriptor};
use crate::search::{first_where, lemma_first_where, lemma_first_where_holds};
use crate::set::{
    all_served, as_ref, custom_detecting, decodes, detected, native_format, recognizing, serving,
    writing, CodecSetError, DecoderConfig, EncoderConfig,
};
use vstd::prelude::*;
use vstd::std_specs::cmp::PartialEqSpec;

verus! {

// ── Formats ─────────────────────────────────────────────────────────────────

/// Custom formats are the same if their names are, and any other format is the
/// same as itself alone; a custom format is never a built-in one.
pub proof fn law_same_formats(
    a: ImageFormat,
    b: ImageFormat,
    x: &'static ImageFormatDefinition,
    y: &'static ImageFormatDefinition,
)
    ensures
        same_format(a, a),
        same_format(a, b) == same_format(b, a),
        !(a is Custom) ==> (same_format(a, b) <==> a == b),
        same_format(ImageFormat::Custom(x), ImageFormat::Custom(y)) <==> x.name@ == y.name@,
        a is Custom && !(b is Custom) ==> !same_format(a, b),
{
}

/// A custom format is described by its definition, a built-in one as such, and the
/// unknown one not at all.
pub proof fn law_described_formats(f: ImageFormat, x: &'static ImageFormatDefinition)
    ensures
        !(f is Custom) ==> f.described() == described(f),
        !(f is Custom) && f.described() is Some ==> f.shown() == (described(f)->0).display_name,
        ImageFormat::Custom(x).described() == Some(x@),
        ImageFormat::Unknown.described() is None,
        ImageFormat::Custom(x).shown() == x.display_name@,
        ImageFormat::Unknown.shown() == "Unknown"@,
        x.image_format is None ==> x.format() == ImageFormat::Custom(x),
        x.image_format matches Some(f) ==> x.format() == f,
{
}

// ── Codecs ──────────────────────────────────────────────────────────────────

/// Whether one of a decoder's formats is `format`.
pub open spec fn handles<D: DecoderConfig>(d: D, format: ImageFormat) -> bool {
    exists|i: int| 0 <= i < d.serves().len() && same_format(#[trigger] d.serves()[i], format)
}

/// The decoder that serves a format is the first that was registered for it.
pub proof fn law_first_decoder_serves<D: DecoderConfig>(
    decoders: Seq<D>,
    format: ImageFormat,
    k: int,
)
    requires
        0 <= k < decoders.len(),
        handles(decoders[k], format),
        forall|j: int| 0 <= j < k ==> !handles(#[trigger] decoders[j], format),
    ensures
        first_where(decoders, serving::<D>(format)) == k,
        decodes(decoders, format),
{
    let p = serving::<D>(format);
    assert(p(decoders[k]));
    assert forall|j: int| 0 <= j < k implies !p(#[trigger] decoders[j]) by {
        assert(!handles(decoders[j], format));
    }
    lemma_first_where(decoders, p, k);
}

/// Where no decoder was registered for a format, none serves it.
pub proof fn law_no_decoder_serves<D: DecoderConfig>(decoders: Seq<D>, format: ImageFormat)
    requires
        forall|j: int| 0 <= j < decoders.len() ==> !handles(#[trigger] decoders[j], format),
    ensures
        first_where(decoders, serving::<D>(format)) == decoders.len(),
        !decodes(decoders, format),
{
    let p = serving::<D>(format);
    assert forall|j: int| 0 <= j < decoders.len() implies !p(#[trigger] decoders[j]) by {
        assert(!handles(decoders[j], format));
    }
    lemma_first_where(decoders, p, decoders.len() as int);
}

/// The encoder that writes a format is the first that was registered for it.
pub proof fn law_first_encoder_writes<E: EncoderConfig>(
    encoders: Seq<E>,
    format: ImageFormat,
    k: int,
)
    requires
        0 <= k <= encoders.len(),
        k < encoders.len() ==> same_format(encoders[k].writes(), format),
        forall|j: int| 0 <= j < k ==> !same_format((#[trigger] encoders[j]).writes(), format),
    ensures
        first_where(encoders, writing::<E>(format)) == k,
{
    let p = writing::<E>(format);
    assert forall|j: int| 0 <= j < k implies !p(#[trigger] encoders[j]) by {
        assert(!same_format(encoders[j].writes(), format));
    }
    lemma_first_where(encoders, p, k);
}

/// The formats of a set are those of its decoders, one decoder behind the other.
pub proof fn law_formats_of_a_set<D: DecoderConfig>(decoders: Seq<D>, d: D)
    ensures
        all_served(Seq::<D>::empty()) == Seq::<ImageFormat>::empty(),
        all_served(decoders.push(d)) == all_served(decoders) + d.serves(),
{
    assert(decoders.push(d).drop_last() =~= decoders);
}

// ── Detection ───────────────────────────────────────────────────────────────

/// Data that looks like a built-in format with a decoder is detected as a built-in
/// format: that one or one that is tried before it, which the data looks like and
/// which has a decoder too.
pub proof fn law_registered_format_is_detected<D: DecoderConfig>(
    decoders: Seq<D>,
    data: Seq<u8>,
    k: int,
)
    requires
        0 <= k < builtin_order().len(),
        decodes(decoders, builtin_order()[k]),
        looks_like(builtin_order()[k], data),
    ensures
        exists|i: int|
            0 <= i <= k && detected(decoders, data) == Some(#[trigger] builtin_order()[i])
                && looks_like(builtin_order()[i], data) && decodes(decoders, builtin_order()[i]),
{
    let p = recognizing(decoders, data);
    lemma_first_where_holds(builtin_order(), p);
    let i = first_where(builtin_order(), p);
    assert(p(builtin_order()[k]));
    assert(i <= k);
    assert(p(builtin_order()[i]));
}

/// Data that looks like no built-in format with a decoder is detected as the first
/// custom format, in order of registration, that detects it.
pub proof fn law_custom_format_is_detected<D: DecoderConfig>(
    decoders: Seq<D>,
    data: Seq<u8>,
    k: int,
)
    requires
        forall|i: int|
            0 <= i < builtin_order().len() ==> !(decodes(decoders, #[trigger] builtin_order()[i])
                && looks_like(builtin_order()[i], data)),
        0 <= k < all_served(decoders).len(),
        all_served(decoders)[k] matches ImageFormat::Custom(d) && d.detects(data),
        forall|j: int|
            0 <= j < k ==> !((#[trigger] all_served(decoders)[j]) matches ImageFormat::Custom(d)
                && d.detects(data)),
    ensures
        detected(decoders, data) == Some(all_served(decoders)[k]),
{
    let p = recognizing(decoders, data);
    let q = custom_detecting(data);
    assert forall|i: int| 0 <= i < builtin_order().len() implies !p(
        #[trigger] builtin_order()[i],
    ) by {}
    lemma_first_where(builtin_order(), p, builtin_order().len() as int);
    assert forall|j: int| 0 <= j < k implies !q(#[trigger] all_served(decoders)[j]) by {}
    lemma_first_where(all_served(decoders), q, k);
}

/// Nothing is detected only where no registered format detects.
pub proof fn law_undetected_is_unknown<D: DecoderConfig>(decoders: Seq<D>, data: Seq<u8>)
    requires
        detected(decoders, data) is None,
    ensures
        forall|i: int|
            0 <= i < builtin_order().len() ==> !(decodes(decoders, #[trigger] builtin_order()[i])
                && looks_like(builtin_order()[i], data)),
        forall|j: int|
            0 <= j < all_served(decoders).len() ==> !((
            #[trigger] all_served(decoders)[j]) matches ImageFormat::Custom(d) && d.detects(data)),
{
    let p = recognizing(decoders, data);
    let q = custom_detecting(data);
    lemma_first_where_holds(builtin_order(), p);
    lemma_first_where_holds(all_served(decoders), q);
    assert forall|i: int| 0 <= i < builtin_order().len() implies !(decodes(
        decoders,
        #[trigger] builtin_order()[i],
    ) && looks_like(builtin_order()[i], data)) by {
        assert(!p(builtin_order()[i]));
    }
    assert forall|j: int| 0 <= j < all_served(decoders).len() implies !((
    #[trigger] all_served(decoders)[j]) matches ImageFormat::Custom(d) && d.detects(data)) by {
        assert(!q(all_served(decoders)[j]));
    }
}

/// The order in which the built-in formats are tried.
pub proof fn law_order_of_trial()
    ensures
        builtin_order().len() == 21,
        builtin_order()[0] == ImageFormat::Jpeg,
        builtin_order()[1] == ImageFormat::Png,
        builtin_order()[2] == ImageFormat::Gif,
        builtin_order()[3] == ImageFormat::WebP,
        builtin_order()[4] == ImageFormat::Avif,
        builtin_order()[5] == ImageFormat::Jxl,
        builtin_order()[6] == ImageFormat::Heic,
        builtin_order()[7] == ImageFormat::Bmp,
        builtin_order()[8] == ImageFormat::Farbfeld,
        builtin_order()[9] == ImageFormat::Pnm,
        builtin_order()[10] == ImageFormat::Dng,
        builtin_order()[11] == ImageFormat::Raw,
        builtin_order()[12] == ImageFormat::Tiff,
        builtin_order()[13] == ImageFormat::Ico,
        builtin_order()[14] == ImageFormat::Qoi,
        builtin_order()[15] == ImageFormat::Pdf,
        builtin_order()[16] == ImageFormat::Exr,
        builtin_order()[17] == ImageFormat::Hdr,
        builtin_order()[18] == ImageFormat::Jp2,
        builtin_order()[19] == ImageFormat::Tga,
        builtin_order()[20] == ImageFormat::Svg,
{
}

// ── Estimates and words ─────────────────────────────────────────────────────

/// A decoder's output is estimated in the first pixel format that it produces;
/// without any, in 8-bit sRGB, with straight alpha exactly where the image has
/// alpha.
pub proof fn law_native_format(supported: Seq<PixelDescriptor>, alpha: bool)
    ensures
        supported.len() > 0 ==> native_format(supported, alpha) == supported[0],
        supported.len() == 0 ==> ({
            let d = native_format(supported, alpha);
            &&& d.channel_type == ChannelType::U8
            &&& d.transfer == TransferFunction::Srgb
            &&& alpha ==> d.layout == ChannelLayout::Rgba && d.alpha == Some(AlphaMode::Straight)
            &&& !alpha ==> d.layout == ChannelLayout::Rgb && d.alpha is None
            &&& d.carries_alpha() == alpha
        }),
{
}

/// A borrow is of what is there.
pub proof fn law_borrow_of_an_option<T>(v: Option<T>, x: T)
    ensures
        as_ref(&v) is Some <==> v is Some,
        v == Some(x) ==> as_ref(&v) == Some(&x),
{
}

/// What a set's errors say.
pub proof fn law_words_of_a_set<X: Phrase>(e: CodecSetError<X>)
    ensures
        e is UnrecognizedFormat ==> e.words()
            == "no registered decoder's format matched the input bytes"@,
        e matches CodecSetError::NoDecoder(f) ==> e.words() == "no decoder registered for "@
            + f.shown(),
        e matches CodecSetError::NoEncoder(f) ==> e.words() == "no encoder registered for "@
            + f.shown(),
        e matches CodecSetError::Codec(x) ==> e.words() == "codec error: "@ + x.words(),
{
}

/// A codec in a box is the codec in it.
pub proof fn law_boxed_codecs<D: DecoderConfig, E: EncoderConfig>(
    d: Box<D>,
    e: Box<E>,
    image: ImageView,
    compute: EnvironmentView,
)
    ensures
        d.serves() == (*d).serves(),
        d.produces() == (*d).produces(),
        DecoderConfig::predicts(&d, image, compute) == DecoderConfig::predicts(
            &*d,
            image,
            compute,
        ),
        e.writes() == (*e).writes(),
        EncoderConfig::predicts(&e, image, compute) == EncoderConfig::predicts(
            &*e,
            image,
            compute,
        ),
{
}

/// Definitions are equal if their names are, and formats if they are the same.
pub proof fn law_equality_of_formats(
    a: ImageFormat,
    b: ImageFormat,
    x: ImageFormatDefinition,
    y: ImageFormatDefinition,
)
    ensures
        a.eq_spec(&b) <==> same_format(a, b),
        x.eq_spec(&y) <==> x.name@ == y.name@,
        ImageFormat::obeys_eq_spec(),
        ImageFormatDefinition::obeys_eq_spec(),
{
}

} // verus!
