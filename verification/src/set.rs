//! A set of codecs: which one serves a request.
use crate::error::phrase::Phrase;
use crate::estimate::{
    ComputeEnvironment, EnvironmentView, EstimateView, ImageCharacteristics, ImageView,
    ResourceEstimate,
};
use crate::format::builtins::{all_builtins, builtin_order, is_builtin, looks_like};
use crate::format::definition::{same_format, ImageFormat};
use crate::info::ImageInfo;
use crate::pixels::PixelDescriptor;
use crate::policy::{DecodePolicy, EncodePolicy};
use crate::search::{first_where, lemma_first_where, lemma_first_where_holds};
use vstd::prelude::*;
use vstd::string::StringExecFns;

verus! {

/// A decoder's configuration.
pub trait DecoderConfig {
    /// The formats that the decoder serves. An implementation says here which.
    open spec fn serves(&self) -> Seq<ImageFormat> {
        arbitrary()
    }

    /// The pixel formats that the decoder produces, the native one first. An
    /// implementation says here which.
    open spec fn produces(&self) -> Seq<PixelDescriptor> {
        arbitrary()
    }

    /// What the decoder predicts for an image on some hardware. An implementation
    /// gives its model here.
    open spec fn predicts(&self, image: ImageView, compute: EnvironmentView) -> EstimateView {
        arbitrary()
    }

    /// The formats that the decoder serves.
    fn formats(&self) -> (r: &'static [ImageFormat])
        ensures
            r@ == self.serves(),
    ;

    /// The pixel formats that the decoder produces, the native one first.
    fn supported_descriptors(&self) -> (r: &'static [PixelDescriptor])
        ensures
            r@ == self.produces(),
    ;

    /// What the decoder predicts for an image on some hardware.
    fn estimate_decode_resources(
        &self,
        image: &ImageCharacteristics,
        compute: &ComputeEnvironment,
    ) -> (r: ResourceEstimate)
        ensures
            r@ == self.predicts(image@, compute@),
    ;
}

/// Decoders of different types stand side by side behind a box.
impl<D: DecoderConfig + ?Sized> DecoderConfig for Box<D> {
    open spec fn serves(&self) -> Seq<ImageFormat> {
        (**self).serves()
    }

    open spec fn produces(&self) -> Seq<PixelDescriptor> {
        (**self).produces()
    }

    open spec fn predicts(&self, image: ImageView, compute: EnvironmentView) -> EstimateView {
        (**self).predicts(image, compute)
    }

    fn formats(&self) -> (r: &'static [ImageFormat]) {
        (**self).formats()
    }

    fn supported_descriptors(&self) -> (r: &'static [PixelDescriptor]) {
        (**self).supported_descriptors()
    }

    fn estimate_decode_resources(
        &self,
        image: &ImageCharacteristics,
        compute: &ComputeEnvironment,
    ) -> (r: ResourceEstimate) {
        (**self).estimate_decode_resources(image, compute)
    }
}

/// An encoder's configuration.
pub trait EncoderConfig {
    /// The format that the encoder writes. An implementation says here which.
    open spec fn writes(&self) -> ImageFormat {
        arbitrary()
    }

    /// What the encoder predicts for an image on some hardware. An implementation
    /// gives its model here.
    open spec fn predicts(&self, image: ImageView, compute: EnvironmentView) -> EstimateView {
        arbitrary()
    }

    /// The format that the encoder writes.
    fn format(&self) -> (r: ImageFormat)
        ensures
            r == self.writes(),
    ;

    /// What the encoder predicts for an image on some hardware.
    fn estimate_encode_resources(
        &self,
        image: &ImageCharacteristics,
        compute: &ComputeEnvironment,
    ) -> (r: ResourceEstimate)
        ensures
            r@ == self.predicts(image@, compute@),
    ;
}

/// Encoders of different types stand side by side behind a box.
impl<E: EncoderConfig + ?Sized> EncoderConfig for Box<E> {
    open spec fn writes(&self) -> ImageFormat {
        (**self).writes()
    }

    open spec fn predicts(&self, image: ImageView, compute: EnvironmentView) -> EstimateView {
        (**self).predicts(image, compute)
    }

    fn format(&self) -> (r: ImageFormat) {
        (**self).format()
    }

    fn estimate_encode_resources(
        &self,
        image: &ImageCharacteristics,
        compute: &ComputeEnvironment,
    ) -> (r: ResourceEstimate) {
        (**self).estimate_encode_resources(image, compute)
    }
}

/// Decoders of type `D` and encoders of type `E`, with limits of type `L`, a
/// stop token of type `S` and policies for every job.
#[derive(Clone, Debug)]
pub struct CodecSet<D, E, L, S> {
    decoders: Vec<D>,
    encoders: Vec<E>,
    limits: Option<L>,
    stop: Option<S>,
    decode_policy: Option<DecodePolicy>,
    encode_policy: Option<EncodePolicy>,
}

/// Why a set cannot serve a request; `X` is a codec's own error.
#[non_exhaustive]
pub enum CodecSetError<X> {
    /// No decoder's format matched the input.
    UnrecognizedFormat,
    /// No decoder of the format is registered.
    NoDecoder(ImageFormat),
    /// No encoder of the format is registered.
    NoEncoder(ImageFormat),
    /// The codec failed.
    Codec(X),
}

/// A decode to run: the decoder and the set's defaults for it.
pub struct DecodePlan<'a, D, L, S> {
    pub decoder: &'a D,
    pub limits: Option<&'a L>,
    pub stop: Option<&'a S>,
    pub policy: Option<DecodePolicy>,
}

/// An encode to run: the encoder and the set's defaults for it.
pub struct EncodePlan<'a, E, L, S> {
    pub encoder: &'a E,
    pub limits: Option<&'a L>,
    pub stop: Option<&'a S>,
    pub policy: Option<EncodePolicy>,
}

/// An encode to run on the encoder once its fidelity is set.
pub struct TunedPlan<'a, E, L, S, F> {
    pub job: EncodePlan<'a, E, L, S>,
    pub fidelity: F,
}

/// The contents of a [`CodecSet`].
#[verifier::ext_equal]
pub struct SetView<D, E, L, S> {
    pub decoders: Seq<D>,
    pub encoders: Seq<E>,
    pub limits: Option<L>,
    pub stop: Option<S>,
    pub decode_policy: Option<DecodePolicy>,
    pub encode_policy: Option<EncodePolicy>,
}

impl<D, E, L, S> View for CodecSet<D, E, L, S> {
    type V = SetView<D, E, L, S>;

    closed spec fn view(&self) -> SetView<D, E, L, S> {
        SetView {
            decoders: self.decoders@,
            encoders: self.encoders@,
            limits: self.limits,
            stop: self.stop,
            decode_policy: self.decode_policy,
            encode_policy: self.encode_policy,
        }
    }
}

// ── Which codec serves ──────────────────────────────────────────────────────

/// Whether `format` is among `formats`.
pub open spec fn lists_format(formats: Seq<ImageFormat>, format: ImageFormat) -> bool {
    exists|i: int| 0 <= i < formats.len() && same_format(#[trigger] formats[i], format)
}

/// Whether a decoder serves `format`.
pub open spec fn serving<D: DecoderConfig>(format: ImageFormat) -> spec_fn(D) -> bool {
    |d: D| lists_format(d.serves(), format)
}

/// Whether an encoder writes `format`.
pub open spec fn writing<E: EncoderConfig>(format: ImageFormat) -> spec_fn(E) -> bool {
    |e: E| same_format(e.writes(), format)
}

/// The formats of `decoders`, in order of registration.
pub open spec fn all_served<D: DecoderConfig>(decoders: Seq<D>) -> Seq<ImageFormat>
    decreases decoders.len(),
{
    if decoders.len() == 0 {
        Seq::empty()
    } else {
        all_served(decoders.drop_last()) + decoders.last().serves()
    }
}

/// Whether a decoder of `format` is registered.
pub open spec fn decodes<D: DecoderConfig>(decoders: Seq<D>, format: ImageFormat) -> bool {
    first_where(decoders, serving::<D>(format)) < decoders.len()
}

/// Whether a built-in format is registered and `data` looks like it.
pub open spec fn recognizing<D: DecoderConfig>(
    decoders: Seq<D>,
    data: Seq<u8>,
) -> spec_fn(ImageFormat) -> bool {
    |f: ImageFormat| decodes(decoders, f) && looks_like(f, data)
}

/// Whether a format is a custom one that detects `data`.
pub open spec fn custom_detecting(data: Seq<u8>) -> spec_fn(ImageFormat) -> bool {
    |f: ImageFormat| f matches ImageFormat::Custom(d) && d.detects(data)
}

/// The format of `data` among those that `decoders` serve: the first built-in
/// one in their order of priority, and else the first custom one in order of
/// registration.
pub open spec fn detected<D: DecoderConfig>(decoders: Seq<D>, data: Seq<u8>) -> Option<
    ImageFormat,
> {
    let i = first_where(builtin_order(), recognizing(decoders, data));
    let formats = all_served(decoders);
    let j = first_where(formats, custom_detecting(data));
    if i < builtin_order().len() {
        Some(builtin_order()[i])
    } else if j < formats.len() {
        Some(formats[j])
    } else {
        None
    }
}

/// The pixel format in which a decoder's output is estimated: the native one,
/// or 8-bit sRGB with alpha as the image has it.
pub open spec fn native_format(supported: Seq<PixelDescriptor>, has_alpha: bool) -> PixelDescriptor {
    if supported.len() > 0 {
        supported[0]
    } else if has_alpha {
        PixelDescriptor {
            channel_type: crate::pixels::ChannelType::U8,
            layout: crate::pixels::ChannelLayout::Rgba,
            alpha: Some(crate::pixels::AlphaMode::Straight),
            transfer: crate::cicp::TransferFunction::Srgb,
        }
    } else {
        PixelDescriptor {
            channel_type: crate::pixels::ChannelType::U8,
            layout: crate::pixels::ChannelLayout::Rgb,
            alpha: None,
            transfer: crate::cicp::TransferFunction::Srgb,
        }
    }
}

/// Whether `format` is among `formats`.
fn format_among(formats: &[ImageFormat], format: ImageFormat) -> (r: bool)
    ensures
        r == lists_format(formats@, format),
{
    let mut i: usize = 0;
    while i < formats.len()
        invariant
            i <= formats@.len(),
            forall|j: int| 0 <= j < i ==> !same_format(#[trigger] formats@[j], format),
        decreases formats.len() - i,
    {
        if formats[i] == format {
            return true;
        }
        i += 1;
    }
    false
}

/// The pixel format in which a decoder's output is estimated.
pub fn native_descriptor(supported: &[PixelDescriptor], has_alpha: bool) -> (r: PixelDescriptor)
    ensures
        r == native_format(supported@, has_alpha),
{
    if supported.len() > 0 {
        supported[0]
    } else if has_alpha {
        PixelDescriptor::RGBA8_SRGB()
    } else {
        PixelDescriptor::RGB8_SRGB()
    }
}

impl<D, E, L, S> CodecSet<D, E, L, S> {
    /// A set without codecs or defaults.
    pub fn new() -> (r: Self)
        ensures
            r@ == (SetView::<D, E, L, S> {
                decoders: Seq::empty(),
                encoders: Seq::empty(),
                limits: None,
                stop: None,
                decode_policy: None,
                encode_policy: None,
            }),
    {
        CodecSet {
            decoders: Vec::new(),
            encoders: Vec::new(),
            limits: None,
            stop: None,
            decode_policy: None,
            encode_policy: None,
        }
    }

    /// Register a decoder. Of several that serve a format the first wins.
    pub fn with_decoder(self, config: D) -> (r: Self)
        ensures
            r@ == (SetView { decoders: self@.decoders.push(config), ..self@ }),
    {
        let mut decoders = self.decoders;
        decoders.push(config);
        CodecSet { decoders, ..self }
    }

    /// Register an encoder. Of several that write a format the first wins.
    pub fn with_encoder(self, config: E) -> (r: Self)
        ensures
            r@ == (SetView { encoders: self@.encoders.push(config), ..self@ }),
    {
        let mut encoders = self.encoders;
        encoders.push(config);
        CodecSet { encoders, ..self }
    }

    /// Set the limits for every job.
    pub fn with_limits(self, limits: L) -> (r: Self)
        ensures
            r@ == (SetView { limits: Some(limits), ..self@ }),
    {
        CodecSet { limits: Some(limits), ..self }
    }

    /// Set the stop token for every job.
    pub fn with_stop(self, stop: S) -> (r: Self)
        ensures
            r@ == (SetView { stop: Some(stop), ..self@ }),
    {
        CodecSet { stop: Some(stop), ..self }
    }

    /// Set the policy for every decode.
    pub fn with_decode_policy(self, policy: DecodePolicy) -> (r: Self)
        ensures
            r@ == (SetView { decode_policy: Some(policy), ..self@ }),
    {
        CodecSet { decode_policy: Some(policy), ..self }
    }

    /// Set the policy for every encode.
    pub fn with_encode_policy(self, policy: EncodePolicy) -> (r: Self)
        ensures
            r@ == (SetView { encode_policy: Some(policy), ..self@ }),
    {
        CodecSet { encode_policy: Some(policy), ..self }
    }
}

impl<D, E, L, S> Default for CodecSet<D, E, L, S> {
    fn default() -> (r: Self)
        ensures
            r@ == (SetView::<D, E, L, S> {
                decoders: Seq::empty(),
                encoders: Seq::empty(),
                limits: None,
                stop: None,
                decode_policy: None,
                encode_policy: None,
            }),
    {
        CodecSet::new()
    }
}

impl<D: DecoderConfig, E, L, S> CodecSet<D, E, L, S> {
    /// The decoder that serves `format`: the first registered one.
    pub fn decoder_for(&self, format: ImageFormat) -> (r: Option<&D>)
        ensures
            r == ({
                let i = first_where(self@.decoders, serving::<D>(format));
                if i < self@.decoders.len() {
                    Some(&self@.decoders[i])
                } else {
                    None
                }
            }),
    {
        let ghost p = serving::<D>(format);
        let mut i: usize = 0;
        while i < self.decoders.len()
            invariant
                i <= self.decoders@.len(),
                p == serving::<D>(format),
                forall|j: int| 0 <= j < i ==> !p(#[trigger] self.decoders@[j]),
            decreases self.decoders.len() - i,
        {
            if format_among(self.decoders[i].formats(), format) {
                proof {
                    lemma_first_where(self.decoders@, p, i as int);
                }
                return Some(&self.decoders[i]);
            }
            i += 1;
        }
        proof {
            lemma_first_where(self.decoders@, p, i as int);
        }
        None
    }

    /// Whether a decoder of `format` is registered.
    pub fn can_decode(&self, format: ImageFormat) -> (r: bool)
        ensures
            r == decodes(self@.decoders, format),
    {
        self.decoder_for(format).is_some()
    }

    /// The formats that can be decoded, in order of registration; a format that
    /// several decoders serve is repeated.
    pub fn decodable_formats(&self) -> (r: Vec<ImageFormat>)
        ensures
            r@ == all_served(self@.decoders),
    {
        let mut out: Vec<ImageFormat> = Vec::new();
        let mut i: usize = 0;
        while i < self.decoders.len()
            invariant
                i <= self.decoders@.len(),
                out@ == all_served(self.decoders@.take(i as int)),
            decreases self.decoders.len() - i,
        {
            let formats = self.decoders[i].formats();
            let ghost before = out@;
            let mut k: usize = 0;
            while k < formats.len()
                invariant
                    k <= formats@.len(),
                    out@ == before + formats@.take(k as int),
                decreases formats.len() - k,
            {
                out.push(formats[k]);
                k += 1;
                assert(out@ =~= before + formats@.take(k as int));
            }
            assert(formats@.take(k as int) =~= formats@);
            i += 1;
            assert(self.decoders@.take(i as int).drop_last() =~= self.decoders@.take(i - 1));
        }
        assert(self.decoders@.take(i as int) =~= self.decoders@);
        out
    }

    /// The format of `data`, among those that can be decoded. Built-in formats
    /// are tried in their order of priority, whatever the order of registration,
    /// and then custom ones in order of registration.
    pub fn detect(&self, data: &[u8]) -> (r: Option<ImageFormat>)
        ensures
            r == detected(self@.decoders, data@),
    {
        let defs = all_builtins();
        let ghost p = recognizing(self@.decoders, data@);
        let mut i: usize = 0;
        while i < defs.len()
            invariant
                i <= defs@.len() == builtin_order().len(),
                p == recognizing(self@.decoders, data@),
                forall|j: int|
                    0 <= j < defs@.len() ==> is_builtin(#[trigger] defs@[j], builtin_order()[j]),
                forall|j: int| 0 <= j < i ==> !p(#[trigger] builtin_order()[j]),
            decreases defs.len() - i,
        {
            let def = defs[i];
            let format = def.to_image_format();
            assert(is_builtin(defs@[i as int], builtin_order()[i as int]));
            assert(format == builtin_order()[i as int]);
            if self.can_decode(format) && def.detect.detect(data) {
                proof {
                    assert(def.detects(data@));
                    lemma_first_where(builtin_order(), p, i as int);
                }
                return Some(format);
            }
            proof {
                assert(def.detects(data@) == looks_like(format, data@));
            }
            i += 1;
        }
        proof {
            lemma_first_where(builtin_order(), p, i as int);
        }
        let formats = self.decodable_formats();
        let ghost q = custom_detecting(data@);
        let mut k: usize = 0;
        while k < formats.len()
            invariant
                k <= formats@.len(),
                formats@ == all_served(self@.decoders),
                q == custom_detecting(data@),
                first_where(builtin_order(), recognizing(self@.decoders, data@))
                    == builtin_order().len(),
                forall|j: int| 0 <= j < k ==> !q(#[trigger] formats@[j]),
            decreases formats.len() - k,
        {
            if let ImageFormat::Custom(def) = formats[k] {
                if def.detect.detect(data) {
                    proof {
                        assert(def.detects(data@));
                        lemma_first_where(formats@, q, k as int);
                    }
                    return Some(formats[k]);
                }
            }
            k += 1;
        }
        proof {
            lemma_first_where(formats@, q, k as int);
        }
        None
    }

    /// The job of decoding `format`, with the set's defaults.
    pub fn decode_job<X>(&self, format: ImageFormat) -> (r: Result<
        DecodePlan<'_, D, L, S>,
        CodecSetError<X>,
    >)
        ensures
            ({
                let i = first_where(self@.decoders, serving::<D>(format));
                match r {
                    Ok(job) => i < self@.decoders.len() && *job.decoder == self@.decoders[i]
                        && job.limits == as_ref(&self@.limits) && job.stop == as_ref(&self@.stop)
                        && job.policy == self@.decode_policy,
                    Err(e) => i >= self@.decoders.len() && e == CodecSetError::<X>::NoDecoder(
                        format,
                    ),
                }
            }),
    {
        proof {
            lemma_first_where_holds(self@.decoders, serving::<D>(format));
        }
        match self.decoder_for(format) {
            Some(decoder) => Ok(
                DecodePlan {
                    decoder,
                    limits: borrowed(&self.limits),
                    stop: borrowed(&self.stop),
                    policy: self.decode_policy,
                },
            ),
            None => Err(CodecSetError::NoDecoder(format)),
        }
    }

    /// The format of `data` and the job of decoding it.
    pub fn decode_job_for<X>(&self, data: &[u8]) -> (r: Result<
        (ImageFormat, DecodePlan<'_, D, L, S>),
        CodecSetError<X>,
    >)
        ensures
            match detected(self@.decoders, data@) {
                None => r == Err::<(ImageFormat, DecodePlan<'_, D, L, S>), CodecSetError<X>>(
                    CodecSetError::UnrecognizedFormat,
                ),
                Some(format) => {
                    let i = first_where(self@.decoders, serving::<D>(format));
                    match r {
                        Ok((f, job)) => f == format && i < self@.decoders.len() && *job.decoder
                            == self@.decoders[i] && job.limits == as_ref(&self@.limits) && job.stop
                            == as_ref(&self@.stop) && job.policy == self@.decode_policy,
                        Err(e) => i >= self@.decoders.len() && e == CodecSetError::<X>::NoDecoder(
                            format,
                        ),
                    }
                },
            },
    {
        match self.detect(data) {
            None => Err(CodecSetError::UnrecognizedFormat),
            Some(format) => match self.decode_job(format) {
                Ok(job) => Ok((format, job)),
                Err(e) => Err(e),
            },
        }
    }

    /// What decoding an image of `format` takes, as its decoder predicts it.
    pub fn estimate_decode<X>(
        &self,
        format: ImageFormat,
        image: &ImageCharacteristics,
        compute: &ComputeEnvironment,
    ) -> (r: Result<ResourceEstimate, CodecSetError<X>>)
        ensures
            ({
                let i = first_where(self@.decoders, serving::<D>(format));
                match r {
                    Ok(e) => i < self@.decoders.len() && e@ == self@.decoders[i].predicts(
                        image@,
                        compute@,
                    ),
                    Err(e) => i >= self@.decoders.len() && e == CodecSetError::<X>::NoDecoder(
                        format,
                    ),
                }
            }),
    {
        proof {
            lemma_first_where_holds(self@.decoders, serving::<D>(format));
        }
        match self.decoder_for(format) {
            Some(decoder) => Ok(decoder.estimate_decode_resources(image, compute)),
            None => Err(CodecSetError::NoDecoder(format)),
        }
    }

    /// What decoding an image takes that was probed as `format`: one frame of
    /// the canvas in the decoder's native pixel format.
    pub fn estimate_decode_of<X>(
        &self,
        format: ImageFormat,
        info: &ImageInfo,
        compute: &ComputeEnvironment,
    ) -> (r: Result<ResourceEstimate, CodecSetError<X>>)
        ensures
            ({
                let i = first_where(self@.decoders, serving::<D>(format));
                let d = self@.decoders[i];
                match r {
                    Ok(e) => i < self@.decoders.len() && e@ == d.predicts(
                        (ImageView {
                            width: info.width,
                            height: info.height,
                            descriptor: native_format(d.produces(), info.has_alpha),
                            frame_count: 1,
                        }),
                        compute@,
                    ),
                    Err(e) => i >= self@.decoders.len() && e == CodecSetError::<X>::NoDecoder(
                        format,
                    ),
                }
            }),
    {
        proof {
            lemma_first_where_holds(self@.decoders, serving::<D>(format));
        }
        match self.decoder_for(format) {
            Some(decoder) => {
                let native = native_descriptor(decoder.supported_descriptors(), info.has_alpha);
                let image = ImageCharacteristics::new(info.width, info.height, native);
                Ok(decoder.estimate_decode_resources(&image, compute))
            },
            None => Err(CodecSetError::NoDecoder(format)),
        }
    }
}

impl<D, E: EncoderConfig, L, S> CodecSet<D, E, L, S> {
    /// The encoder that writes `format`: the first registered one.
    pub fn encoder_for(&self, format: ImageFormat) -> (r: Option<&E>)
        ensures
            r == ({
                let i = first_where(self@.encoders, writing::<E>(format));
                if i < self@.encoders.len() {
                    Some(&self@.encoders[i])
                } else {
                    None
                }
            }),
    {
        let ghost p = writing::<E>(format);
        let mut i: usize = 0;
        while i < self.encoders.len()
            invariant
                i <= self.encoders@.len(),
                p == writing::<E>(format),
                forall|j: int| 0 <= j < i ==> !p(#[trigger] self.encoders@[j]),
            decreases self.encoders.len() - i,
        {
            if self.encoders[i].format() == format {
                proof {
                    lemma_first_where(self.encoders@, p, i as int);
                }
                return Some(&self.encoders[i]);
            }
            i += 1;
        }
        proof {
            lemma_first_where(self.encoders@, p, i as int);
        }
        None
    }

    /// Whether an encoder of `format` is registered.
    pub fn can_encode(&self, format: ImageFormat) -> (r: bool)
        ensures
            r == (first_where(self@.encoders, writing::<E>(format)) < self@.encoders.len()),
    {
        self.encoder_for(format).is_some()
    }

    /// The formats that can be encoded, in order of registration.
    pub fn encodable_formats(&self) -> (r: Vec<ImageFormat>)
        ensures
            r@ == self@.encoders.map_values(|e: E| e.writes()),
    {
        let mut out: Vec<ImageFormat> = Vec::new();
        let mut i: usize = 0;
        while i < self.encoders.len()
            invariant
                i <= self.encoders@.len(),
                out@ == self.encoders@.take(i as int).map_values(|e: E| e.writes()),
            decreases self.encoders.len() - i,
        {
            out.push(self.encoders[i].format());
            i += 1;
            assert(out@ =~= self.encoders@.take(i as int).map_values(|e: E| e.writes()));
        }
        assert(self.encoders@.take(i as int) =~= self.encoders@);
        out
    }

    /// The job of encoding to `format`, with the set's defaults.
    pub fn encode_job<X>(&self, format: ImageFormat) -> (r: Result<
        EncodePlan<'_, E, L, S>,
        CodecSetError<X>,
    >)
        ensures
            ({
                let i = first_where(self@.encoders, writing::<E>(format));
                match r {
                    Ok(job) => i < self@.encoders.len() && *job.encoder == self@.encoders[i]
                        && job.limits == as_ref(&self@.limits) && job.stop == as_ref(&self@.stop)
                        && job.policy == self@.encode_policy,
                    Err(e) => i >= self@.encoders.len() && e == CodecSetError::<X>::NoEncoder(
                        format,
                    ),
                }
            }),
    {
        proof {
            lemma_first_where_holds(self@.encoders, writing::<E>(format));
        }
        match self.encoder_for(format) {
            Some(encoder) => Ok(
                EncodePlan {
                    encoder,
                    limits: borrowed(&self.limits),
                    stop: borrowed(&self.stop),
                    policy: self.encode_policy,
                },
            ),
            None => Err(CodecSetError::NoEncoder(format)),
        }
    }

    /// What encoding an image to `format` takes, as its encoder predicts it.
    pub fn estimate_encode<X>(
        &self,
        format: ImageFormat,
        image: &ImageCharacteristics,
        compute: &ComputeEnvironment,
    ) -> (r: Result<ResourceEstimate, CodecSetError<X>>)
        ensures
            ({
                let i = first_where(self@.encoders, writing::<E>(format));
                match r {
                    Ok(e) => i < self@.encoders.len() && e@ == self@.encoders[i].predicts(
                        image@,
                        compute@,
                    ),
                    Err(e) => i >= self@.encoders.len() && e == CodecSetError::<X>::NoEncoder(
                        format,
                    ),
                }
            }),
    {
        proof {
            lemma_first_where_holds(self@.encoders, writing::<E>(format));
        }
        match self.encoder_for(format) {
            Some(encoder) => Ok(encoder.estimate_encode_resources(image, compute)),
            None => Err(CodecSetError::NoEncoder(format)),
        }
    }

    /// The job of encoding to `format` at a fidelity of its own, with the set's
    /// defaults.
    pub fn encode_job_with<X, F>(&self, format: ImageFormat, fidelity: F) -> (r: Result<
        TunedPlan<'_, E, L, S, F>,
        CodecSetError<X>,
    >)
        ensures
            ({
                let i = first_where(self@.encoders, writing::<E>(format));
                match r {
                    Ok(t) => i < self@.encoders.len() && t.fidelity == fidelity && *t.job.encoder
                        == self@.encoders[i] && t.job.limits == as_ref(&self@.limits) && t.job.stop
                        == as_ref(&self@.stop) && t.job.policy == self@.encode_policy,
                    Err(e) => i >= self@.encoders.len() && e == CodecSetError::<X>::NoEncoder(
                        format,
                    ),
                }
            }),
    {
        match self.encode_job(format) {
            Ok(job) => Ok(TunedPlan { job, fidelity }),
            Err(e) => Err(e),
        }
    }

    /// What encoding `width` by `rows` pixels to `format` takes.
    pub fn estimate_encode_of<X>(
        &self,
        format: ImageFormat,
        width: u32,
        rows: u32,
        descriptor: PixelDescriptor,
        compute: &ComputeEnvironment,
    ) -> (r: Result<ResourceEstimate, CodecSetError<X>>)
        ensures
            ({
                let i = first_where(self@.encoders, writing::<E>(format));
                match r {
                    Ok(e) => i < self@.encoders.len() && e@ == self@.encoders[i].predicts(
                        (ImageView { width, height: rows, descriptor, frame_count: 1 }),
                        compute@,
                    ),
                    Err(e) => i >= self@.encoders.len() && e == CodecSetError::<X>::NoEncoder(
                        format,
                    ),
                }
            }),
    {
        let image = ImageCharacteristics::new(width, rows, descriptor);
        self.estimate_encode(format, &image, compute)
    }
}

/// A borrow of what may be absent.
pub open spec fn as_ref<T>(v: &Option<T>) -> Option<&T> {
    match v {
        Some(x) => Some(x),
        None => None,
    }
}

/// A borrow of what may be absent.
fn borrowed<T>(v: &Option<T>) -> (r: Option<&T>)
    ensures
        r == as_ref(v),
{
    match v {
        Some(x) => Some(x),
        None => None,
    }
}

/// The words of a set's error: which format lacks a codec, or what the codec
/// said.
impl<X: Phrase> Phrase for CodecSetError<X> {
    open spec fn words(&self) -> Seq<char> {
        match self {
            CodecSetError::UnrecognizedFormat =>
                "no registered decoder's format matched the input bytes"@,
            CodecSetError::NoDecoder(f) => "no decoder registered for "@ + f.shown(),
            CodecSetError::NoEncoder(f) => "no encoder registered for "@ + f.shown(),
            CodecSetError::Codec(e) => "codec error: "@ + e.words(),
        }
    }

    fn phrase(&self) -> (r: String) {
        match self {
            CodecSetError::UnrecognizedFormat => String::from_str(
                "no registered decoder's format matched the input bytes",
            ),
            CodecSetError::NoDecoder(f) => String::from_str("no decoder registered for ").concat(
                f.display_name(),
            ),
            CodecSetError::NoEncoder(f) => String::from_str("no encoder registered for ").concat(
                f.display_name(),
            ),
            CodecSetError::Codec(e) => String::from_str("codec error: ").concat(
                e.phrase().as_str(),
            ),
        }
    }
}

// ── Laws ────────────────────────────────────────────────────────────────────

/// A decoder serves a format exactly if the format is among all that are
/// served.
proof fn lemma_served<D: DecoderConfig>(decoders: Seq<D>, format: ImageFormat)
    ensures
        decodes(decoders, format) <==> lists_format(all_served(decoders), format),
    decreases decoders.len(),
{
    let p = serving::<D>(format);
    lemma_first_where_holds(decoders, p);
    if decoders.len() > 0 {
        let before = decoders.drop_last();
        let last = decoders.last();
        let a = all_served(before);
        let b = last.serves();
        lemma_served(before, format);
        lemma_first_where_holds(before, p);
        if lists_format(a, format) {
            let i = choose|i: int| 0 <= i < a.len() && same_format(#[trigger] a[i], format);
            assert((a + b)[i] == a[i]);
            let k = first_where(before, p);
            assert(p(decoders[k]));
        }
        if lists_format(b, format) {
            let i = choose|i: int| 0 <= i < b.len() && same_format(#[trigger] b[i], format);
            assert((a + b)[a.len() + i] == b[i]);
            assert(p(decoders[decoders.len() - 1]));
        }
        if lists_format(a + b, format) {
            let i = choose|i: int|
                0 <= i < (a + b).len() && same_format(#[trigger] (a + b)[i], format);
            if i < a.len() {
                assert(a[i] == (a + b)[i]);
            } else {
                assert(b[i - a.len()] == (a + b)[i]);
            }
        }
        if decodes(decoders, format) {
            let k = first_where(decoders, p);
            if k < before.len() {
                assert(p(before[k]));
            }
        }
    }
}

/// What is detected can be decoded.
pub proof fn law_detected_can_be_decoded<D: DecoderConfig>(decoders: Seq<D>, data: Seq<u8>)
    ensures
        detected(decoders, data) matches Some(f) ==> decodes(decoders, f),
{
    lemma_first_where_holds(builtin_order(), recognizing(decoders, data));
    let formats = all_served(decoders);
    lemma_first_where_holds(formats, custom_detecting(data));
    if let Some(f) = detected(decoders, data) {
        let i = first_where(builtin_order(), recognizing(decoders, data));
        if i >= builtin_order().len() {
            let j = first_where(formats, custom_detecting(data));
            assert(same_format(formats[j], f));
            lemma_served(decoders, f);
        }
    }
}

/// Two predicates that agree find the same item.
proof fn lemma_same_first<A>(s: Seq<A>, p: spec_fn(A) -> bool, q: spec_fn(A) -> bool)
    requires
        forall|i: int| 0 <= i < s.len() ==> p(#[trigger] s[i]) == q(s[i]),
    ensures
        first_where(s, p) == first_where(s, q),
    decreases s.len(),
{
    if s.len() > 0 {
        let rest = s.drop_first();
        assert forall|i: int| 0 <= i < rest.len() implies p(#[trigger] rest[i]) == q(rest[i]) by {
            assert(rest[i] == s[i + 1]);
        }
        assert(p(s[0]) == q(s[0]));
        lemma_same_first(rest, p, q);
    }
}

/// Registration order does not matter for built-in formats: sets that decode
/// the same ones detect the same one.
pub proof fn law_priority_is_not_registration_order<D: DecoderConfig>(
    a: Seq<D>,
    b: Seq<D>,
    data: Seq<u8>,
)
    requires
        forall|i: int|
            0 <= i < builtin_order().len() ==> decodes(a, #[trigger] builtin_order()[i]) == decodes(
                b,
                builtin_order()[i],
            ),
    ensures
        first_where(builtin_order(), recognizing(a, data)) == first_where(
            builtin_order(),
            recognizing(b, data),
        ),
        first_where(builtin_order(), recognizing(a, data)) < builtin_order().len() ==> detected(
            a,
            data,
        ) == detected(b, data),
{
    lemma_same_first(builtin_order(), recognizing(a, data), recognizing(b, data));
}

/// A set without decoders detects nothing.
pub proof fn law_empty_set_detects_nothing<D: DecoderConfig>(data: Seq<u8>)
    ensures
        detected(Seq::<D>::empty(), data) is None,
{
    lemma_first_where_holds(builtin_order(), recognizing(Seq::<D>::empty(), data));
    lemma_first_where_holds(all_served(Seq::<D>::empty()), custom_detecting(data));
}

} // verus!
