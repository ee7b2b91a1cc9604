//! Formats and their definitions.
use super::builtins::{builtin, is_builtin};
use super::text::{same_text, spellings};
use vstd::prelude::*;

verus! {

/// A test that tells a format by its bytes.
///
/// It must answer for data of any length; what is inconclusive is not the
/// format.
pub trait Detect: Sync {
    /// Whether `data` appears to be of the format. An implementation says here
    /// what it looks for.
    open spec fn detects(&self, data: Seq<u8>) -> bool {
        arbitrary()
    }

    /// Whether `data` appears to be of the format.
    fn detect(&self, data: &[u8]) -> (r: bool)
        ensures
            r == self.detects(data@),
    ;
}

/// An image format: its names, what it can do, and how it is detected.
///
/// The name identifies it: definitions with one name are equal.
pub struct ImageFormatDefinition {
    /// Unique lower-case identifier.
    pub name: &'static str,
    /// The built-in format that this defines; none for a custom format.
    pub image_format: Option<ImageFormat>,
    /// Name for display.
    pub display_name: &'static str,
    /// Primary file extension, without dot.
    pub preferred_extension: &'static str,
    /// All file extensions, the primary one among them.
    pub extensions: &'static [&'static str],
    /// Primary MIME type.
    pub preferred_mime_type: &'static str,
    /// All MIME types, the primary one among them.
    pub mime_types: &'static [&'static str],
    /// Whether the format supports an alpha channel.
    pub supports_alpha: bool,
    /// Whether the format supports animation.
    pub supports_animation: bool,
    /// Whether the format supports lossless encoding.
    pub supports_lossless: bool,
    /// Whether the format supports lossy encoding.
    pub supports_lossy: bool,
    /// How many bytes reliable detection needs.
    pub magic_bytes_needed: usize,
    /// Detection by content.
    pub detect: &'static dyn Detect,
}

/// An image format.
#[derive(Clone, Copy, Hash)]
#[non_exhaustive]
pub enum ImageFormat {
    Jpeg,
    Png,
    Gif,
    WebP,
    Avif,
    Jxl,
    Heic,
    Bmp,
    Tiff,
    Ico,
    Pnm,
    Farbfeld,
    Qoi,
    Pdf,
    Exr,
    Hdr,
    Tga,
    Jp2,
    Dng,
    Raw,
    Svg,
    Unknown,
    /// A format with a definition of its own.
    Custom(&'static ImageFormatDefinition),
}

/// The contents of a definition, but for its detection.
#[verifier::ext_equal]
pub struct DefinitionView {
    pub name: Seq<char>,
    pub image_format: Option<ImageFormat>,
    pub display_name: Seq<char>,
    pub preferred_extension: Seq<char>,
    pub extensions: Seq<Seq<char>>,
    pub preferred_mime_type: Seq<char>,
    pub mime_types: Seq<Seq<char>>,
    pub supports_alpha: bool,
    pub supports_animation: bool,
    pub supports_lossless: bool,
    pub supports_lossy: bool,
    pub magic_bytes_needed: usize,
}

impl View for ImageFormatDefinition {
    type V = DefinitionView;

    open spec fn view(&self) -> DefinitionView {
        DefinitionView {
            name: self.name@,
            image_format: self.image_format,
            display_name: self.display_name@,
            preferred_extension: self.preferred_extension@,
            extensions: spellings(self.extensions@),
            preferred_mime_type: self.preferred_mime_type@,
            mime_types: spellings(self.mime_types@),
            supports_alpha: self.supports_alpha,
            supports_animation: self.supports_animation,
            supports_lossless: self.supports_lossless,
            supports_lossy: self.supports_lossy,
            magic_bytes_needed: self.magic_bytes_needed,
        }
    }
}

impl ImageFormatDefinition {
    /// Whether `data` appears to be of the format.
    pub open spec fn detects(&self, data: Seq<u8>) -> bool {
        self.detect.detects(data)
    }

    /// The format that a definition defines.
    pub open spec fn format(&'static self) -> ImageFormat {
        match self.image_format {
            Some(f) => f,
            None => ImageFormat::Custom(self),
        }
    }

    /// A definition with all its fields. A custom format has no `image_format`.
    pub fn new(
        name: &'static str,
        image_format: Option<ImageFormat>,
        display_name: &'static str,
        preferred_extension: &'static str,
        extensions: &'static [&'static str],
        preferred_mime_type: &'static str,
        mime_types: &'static [&'static str],
        supports_alpha: bool,
        supports_animation: bool,
        supports_lossless: bool,
        supports_lossy: bool,
        magic_bytes_needed: usize,
        detect: &'static dyn Detect,
    ) -> (r: Self)
        ensures
            r == (ImageFormatDefinition {
                name,
                image_format,
                display_name,
                preferred_extension,
                extensions,
                preferred_mime_type,
                mime_types,
                supports_alpha,
                supports_animation,
                supports_lossless,
                supports_lossy,
                magic_bytes_needed,
                detect,
            }),
    {
        ImageFormatDefinition {
            name,
            image_format,
            display_name,
            preferred_extension,
            extensions,
            preferred_mime_type,
            mime_types,
            supports_alpha,
            supports_animation,
            supports_lossless,
            supports_lossy,
            magic_bytes_needed,
            detect,
        }
    }

    /// The format that this defines.
    pub fn to_image_format(&'static self) -> (r: ImageFormat)
        ensures
            r == self.format(),
    {
        match self.image_format {
            Some(f) => f,
            None => ImageFormat::Custom(self),
        }
    }
}

impl PartialEq for ImageFormatDefinition {
    fn eq(&self, other: &Self) -> (r: bool) {
        same_text(self.name, other.name)
    }
}

impl vstd::std_specs::cmp::PartialEqSpecImpl for ImageFormatDefinition {
    open spec fn obeys_eq_spec() -> bool {
        true
    }

    open spec fn eq_spec(&self, other: &Self) -> bool {
        self.name@ == other.name@
    }
}

impl Eq for ImageFormatDefinition {

}

impl core::hash::Hash for ImageFormatDefinition {
    /// Feeds the name to the hasher, through the `Hash` implementation of `str`,
    /// so that equal definitions hash alike. Nothing is stated of the hasher.
    #[verifier::external_body]
    fn hash<H: core::hash::Hasher>(&self, state: &mut H) {
        self.name.hash(state)
    }
}

/// Whether two formats are the same: one built-in format, or custom formats of
/// one name.
pub open spec fn same_format(a: ImageFormat, b: ImageFormat) -> bool {
    match (a, b) {
        (ImageFormat::Custom(x), ImageFormat::Custom(y)) => x.name@ == y.name@,
        _ => a == b,
    }
}

/// The number of a built-in format.
spec fn number(f: ImageFormat) -> int {
    match f {
        ImageFormat::Jpeg => 0,
        ImageFormat::Png => 1,
        ImageFormat::Gif => 2,
        ImageFormat::WebP => 3,
        ImageFormat::Avif => 4,
        ImageFormat::Jxl => 5,
        ImageFormat::Heic => 6,
        ImageFormat::Bmp => 7,
        ImageFormat::Tiff => 8,
        ImageFormat::Ico => 9,
        ImageFormat::Pnm => 10,
        ImageFormat::Farbfeld => 11,
        ImageFormat::Qoi => 12,
        ImageFormat::Pdf => 13,
        ImageFormat::Exr => 14,
        ImageFormat::Hdr => 15,
        ImageFormat::Tga => 16,
        ImageFormat::Jp2 => 17,
        ImageFormat::Dng => 18,
        ImageFormat::Raw => 19,
        ImageFormat::Svg => 20,
        ImageFormat::Unknown => 21,
        ImageFormat::Custom(_) => 22,
    }
}

/// The number of a built-in format.
fn number_of(f: ImageFormat) -> (r: u8)
    ensures
        r == number(f),
{
    match f {
        ImageFormat::Jpeg => 0,
        ImageFormat::Png => 1,
        ImageFormat::Gif => 2,
        ImageFormat::WebP => 3,
        ImageFormat::Avif => 4,
        ImageFormat::Jxl => 5,
        ImageFormat::Heic => 6,
        ImageFormat::Bmp => 7,
        ImageFormat::Tiff => 8,
        ImageFormat::Ico => 9,
        ImageFormat::Pnm => 10,
        ImageFormat::Farbfeld => 11,
        ImageFormat::Qoi => 12,
        ImageFormat::Pdf => 13,
        ImageFormat::Exr => 14,
        ImageFormat::Hdr => 15,
        ImageFormat::Tga => 16,
        ImageFormat::Jp2 => 17,
        ImageFormat::Dng => 18,
        ImageFormat::Raw => 19,
        ImageFormat::Svg => 20,
        ImageFormat::Unknown => 21,
        ImageFormat::Custom(_) => 22,
    }
}

impl PartialEq for ImageFormat {
    fn eq(&self, other: &Self) -> (r: bool) {
        match (self, other) {
            (ImageFormat::Custom(x), ImageFormat::Custom(y)) => same_text(x.name, y.name),
            _ => number_of(*self) == number_of(*other),
        }
    }
}

impl vstd::std_specs::cmp::PartialEqSpecImpl for ImageFormat {
    open spec fn obeys_eq_spec() -> bool {
        true
    }

    open spec fn eq_spec(&self, other: &Self) -> bool {
        same_format(*self, *other)
    }
}

impl Eq for ImageFormat {

}

impl ImageFormat {
    /// How many bytes to fetch for detecting any built-in format.
    pub const RECOMMENDED_PROBE_BYTES: usize = 4096;

    /// What the definition of a format says; none for the unknown format.
    pub open spec fn described(self) -> Option<DefinitionView> {
        match self {
            ImageFormat::Custom(d) => Some(d@),
            _ => super::builtins::described(self),
        }
    }

    /// The definition of a format; none for the unknown format.
    pub fn definition(self) -> (r: Option<&'static ImageFormatDefinition>)
        ensures
            r matches Some(d) ==> self.described() == Some(d@) && (if self is Custom {
                self == ImageFormat::Custom(d)
            } else {
                is_builtin(d, self)
            }),
            r is None ==> self.described() is None,
    {
        match self {
            ImageFormat::Custom(d) => Some(d),
            _ => builtin(self),
        }
    }

    /// Primary MIME type.
    pub fn mime_type(self) -> (r: &'static str)
        ensures
            r@ == (match self.described() {
                Some(d) => d.preferred_mime_type,
                None => "application/octet-stream"@,
            }),
    {
        match self.definition() {
            Some(d) => d.preferred_mime_type,
            None => "application/octet-stream",
        }
    }

    /// All MIME types.
    pub fn mime_types(self) -> (r: &'static [&'static str])
        ensures
            spellings(r@) == (match self.described() {
                Some(d) => d.mime_types,
                None => Seq::empty(),
            }),
    {
        match self.definition() {
            Some(d) => d.mime_types,
            None => &[],
        }
    }

    /// Primary file extension, without dot.
    pub fn extension(self) -> (r: &'static str)
        ensures
            r@ == (match self.described() {
                Some(d) => d.preferred_extension,
                None => "bin"@,
            }),
    {
        match self.definition() {
            Some(d) => d.preferred_extension,
            None => "bin",
        }
    }

    /// All file extensions.
    pub fn extensions(self) -> (r: &'static [&'static str])
        ensures
            spellings(r@) == (match self.described() {
                Some(d) => d.extensions,
                None => Seq::empty(),
            }),
    {
        match self.definition() {
            Some(d) => d.extensions,
            None => &[],
        }
    }

    /// Whether the format supports lossy encoding.
    pub fn supports_lossy(self) -> (r: bool)
        ensures
            r == (self.described() matches Some(d) && d.supports_lossy),
    {
        match self.definition() {
            Some(d) => d.supports_lossy,
            None => false,
        }
    }

    /// Whether the format supports lossless encoding.
    pub fn supports_lossless(self) -> (r: bool)
        ensures
            r == (self.described() matches Some(d) && d.supports_lossless),
    {
        match self.definition() {
            Some(d) => d.supports_lossless,
            None => false,
        }
    }

    /// Whether the format supports animation.
    pub fn supports_animation(self) -> (r: bool)
        ensures
            r == (self.described() matches Some(d) && d.supports_animation),
    {
        match self.definition() {
            Some(d) => d.supports_animation,
            None => false,
        }
    }

    /// Whether the format supports an alpha channel.
    pub fn supports_alpha(self) -> (r: bool)
        ensures
            r == (self.described() matches Some(d) && d.supports_alpha),
    {
        match self.definition() {
            Some(d) => d.supports_alpha,
            None => false,
        }
    }

    /// How many bytes reliable detection needs.
    pub fn magic_bytes_needed(self) -> (r: usize)
        ensures
            r == (match self.described() {
                Some(d) => d.magic_bytes_needed,
                None => 0,
            }),
    {
        match self.definition() {
            Some(d) => d.magic_bytes_needed,
            None => 0,
        }
    }

    /// Name for display.
    pub open spec fn shown(self) -> Seq<char> {
        match self.described() {
            Some(d) => d.display_name,
            None => "Unknown"@,
        }
    }

    /// Name for display.
    pub fn display_name(self) -> (r: &'static str)
        ensures
            r@ == self.shown(),
    {
        match self.definition() {
            Some(d) => d.display_name,
            None => "Unknown",
        }
    }
}

} // verus!
