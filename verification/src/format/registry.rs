//! Looking formats up.
use super::builtins::{all_builtins, builtin_order, described, is_builtin, looks_like};
use super::definition::{ImageFormat, ImageFormatDefinition};
use super::names::{lemma_extensions_apart, lemma_mime_types_apart};
use super::text::{lower_bytes, same_text_ci, spellings};
use crate::search::{first_where, lemma_first_where, lemma_first_where_holds};
use std::borrow::Cow;
use vstd::prelude::*;

verus! {

/// A list of format definitions, tried in order.
pub struct ImageFormatRegistry {
    formats: Cow<'static, [&'static ImageFormatDefinition]>,
}

/// The format that the first definition for which `p` holds defines.
pub open spec fn format_for(
    defs: Seq<&'static ImageFormatDefinition>,
    p: spec_fn(&'static ImageFormatDefinition) -> bool,
) -> Option<ImageFormat> {
    let i = first_where(defs, p);
    if i < defs.len() {
        Some(defs[i].format())
    } else {
        None
    }
}

/// Whether a definition detects `data`.
pub open spec fn detecting(data: Seq<u8>) -> spec_fn(&'static ImageFormatDefinition) -> bool {
    |d: &'static ImageFormatDefinition| d.detects(data)
}

/// Whether a definition has the file extension `ext`, whatever its case.
pub open spec fn with_extension(ext: Seq<char>) -> spec_fn(&'static ImageFormatDefinition) -> bool {
    |d: &'static ImageFormatDefinition| has_extension(d@.extensions, ext)
}

/// Whether `ext` is one of `extensions`, whatever its case.
pub open spec fn has_extension(extensions: Seq<Seq<char>>, ext: Seq<char>) -> bool {
    exists|i: int|
        0 <= i < extensions.len() && lower_bytes(ext) == lower_bytes(#[trigger] extensions[i])
}

/// Whether a definition has the MIME type `mime`, whatever its case.
pub open spec fn with_mime_type(mime: Seq<char>) -> spec_fn(&'static ImageFormatDefinition) -> bool {
    |d: &'static ImageFormatDefinition| has_mime_type(d@.mime_types, mime)
}

/// Whether `mime` is one of `mime_types`, whatever its case.
pub open spec fn has_mime_type(mime_types: Seq<Seq<char>>, mime: Seq<char>) -> bool {
    exists|i: int|
        0 <= i < mime_types.len() && lower_bytes(mime) == lower_bytes(#[trigger] mime_types[i])
}

/// Whether `ext` is one of `extensions`, whatever its case.
fn extension_among(extensions: &'static [&'static str], ext: &str) -> (r: bool)
    ensures
        r == has_extension(spellings(extensions@), ext@),
{
    let mut i: usize = 0;
    while i < extensions.len()
        invariant
            i <= extensions@.len(),
            forall|j: int|
                0 <= j < i ==> lower_bytes(ext@) != lower_bytes(
                    #[trigger] spellings(extensions@)[j],
                ),
        decreases extensions.len() - i,
    {
        assert(spellings(extensions@)[i as int] == extensions@[i as int]@);
        if same_text_ci(ext, extensions[i]) {
            return true;
        }
        i += 1;
    }
    false
}

/// Whether `mime` is one of `mime_types`, whatever its case.
fn mime_type_among(mime_types: &'static [&'static str], mime: &str) -> (r: bool)
    ensures
        r == has_mime_type(spellings(mime_types@), mime@),
{
    let mut i: usize = 0;
    while i < mime_types.len()
        invariant
            i <= mime_types@.len(),
            forall|j: int|
                0 <= j < i ==> lower_bytes(mime@) != lower_bytes(
                    #[trigger] spellings(mime_types@)[j],
                ),
        decreases mime_types.len() - i,
    {
        assert(spellings(mime_types@)[i as int] == mime_types@[i as int]@);
        if same_text_ci(mime, mime_types[i]) {
            return true;
        }
        i += 1;
    }
    false
}

impl View for ImageFormatRegistry {
    type V = Seq<&'static ImageFormatDefinition>;

    closed spec fn view(&self) -> Seq<&'static ImageFormatDefinition> {
        self.formats@
    }
}

/// Whether `defs` are the built-in definitions in the order in which they are
/// tried.
pub open spec fn are_builtins(defs: Seq<&'static ImageFormatDefinition>) -> bool {
    &&& defs.len() == builtin_order().len()
    &&& forall|i: int|
        0 <= i < defs.len() ==> is_builtin(#[trigger] defs[i], builtin_order()[i]) && described(
            builtin_order()[i],
        ) == Some(defs[i]@)
}

impl ImageFormatRegistry {
    /// The registry of the built-in formats.
    pub fn common() -> (r: Self)
        ensures
            are_builtins(r@),
    {
        ImageFormatRegistry { formats: Cow::Owned(all_builtins()) }
    }

    /// A registry of a static list.
    pub fn from_static(defs: &'static [&'static ImageFormatDefinition]) -> (r: Self)
        ensures
            r@ == defs@,
    {
        ImageFormatRegistry { formats: Cow::Borrowed(defs) }
    }

    /// A registry of an owned list.
    pub fn from_vec(defs: Vec<&'static ImageFormatDefinition>) -> (r: Self)
        ensures
            r@ == defs@,
    {
        ImageFormatRegistry { formats: Cow::Owned(defs) }
    }

    /// The definitions, in the order in which they are tried.
    pub fn formats(&self) -> (r: &[&'static ImageFormatDefinition])
        ensures
            r@ == self@,
    {
        match &self.formats {
            Cow::Borrowed(defs) => defs,
            Cow::Owned(defs) => defs.as_slice(),
        }
    }

    /// The format of the first definition that detects `data`.
    pub fn detect(&self, data: &[u8]) -> (r: Option<ImageFormat>)
        ensures
            r == format_for(self@, detecting(data@)),
    {
        let defs = self.formats();
        let ghost p = detecting(data@);
        let mut i: usize = 0;
        while i < defs.len()
            invariant
                i <= defs@.len(),
                defs@ == self@,
                p == detecting(data@),
                forall|j: int| 0 <= j < i ==> !p(#[trigger] defs@[j]),
            decreases defs.len() - i,
        {
            let def = defs[i];
            if def.detect.detect(data) {
                proof {
                    lemma_first_where(self@, p, i as int);
                }
                return Some(def.to_image_format());
            }
            i += 1;
        }
        proof {
            lemma_first_where(self@, p, i as int);
        }
        None
    }

    /// The format of the first definition with the file extension `ext`,
    /// whatever its case.
    pub fn from_extension(&self, ext: &str) -> (r: Option<ImageFormat>)
        ensures
            r == format_for(self@, with_extension(ext@)),
    {
        let defs = self.formats();
        let ghost p = with_extension(ext@);
        let mut i: usize = 0;
        while i < defs.len()
            invariant
                i <= defs@.len(),
                defs@ == self@,
                p == with_extension(ext@),
                forall|j: int| 0 <= j < i ==> !p(#[trigger] defs@[j]),
            decreases defs.len() - i,
        {
            let def = defs[i];
            if extension_among(def.extensions, ext) {
                proof {
                    lemma_first_where(self@, p, i as int);
                }
                return Some(def.to_image_format());
            }
            i += 1;
        }
        proof {
            lemma_first_where(self@, p, i as int);
        }
        None
    }

    /// The format of the first definition with the MIME type `mime`, whatever
    /// its case.
    pub fn from_mime_type(&self, mime: &str) -> (r: Option<ImageFormat>)
        ensures
            r == format_for(self@, with_mime_type(mime@)),
    {
        let defs = self.formats();
        let ghost p = with_mime_type(mime@);
        let mut i: usize = 0;
        while i < defs.len()
            invariant
                i <= defs@.len(),
                defs@ == self@,
                p == with_mime_type(mime@),
                forall|j: int| 0 <= j < i ==> !p(#[trigger] defs@[j]),
            decreases defs.len() - i,
        {
            let def = defs[i];
            if mime_type_among(def.mime_types, mime) {
                proof {
                    lemma_first_where(self@, p, i as int);
                }
                return Some(def.to_image_format());
            }
            i += 1;
        }
        proof {
            lemma_first_where(self@, p, i as int);
        }
        None
    }
}

impl Clone for ImageFormatRegistry {
    fn clone(&self) -> (r: Self)
        ensures
            r@ == self@,
    {
        let defs = self.formats();
        let mut copy: Vec<&'static ImageFormatDefinition> = Vec::new();
        let mut i: usize = 0;
        while i < defs.len()
            invariant
                i <= defs@.len(),
                copy@ == defs@.take(i as int),
            decreases defs.len() - i,
        {
            copy.push(defs[i]);
            i += 1;
            assert(copy@ =~= defs@.take(i as int));
        }
        assert(copy@ =~= defs@);
        ImageFormatRegistry { formats: Cow::Owned(copy) }
    }
}

impl Default for ImageFormatRegistry {
    fn default() -> (r: Self)
        ensures
            are_builtins(r@),
    {
        ImageFormatRegistry::common()
    }
}

// ── Laws ────────────────────────────────────────────────────────────────────

/// The built-in formats are tried in order: data is detected as a format
/// exactly if it looks like it and like none that is tried before it.
pub proof fn law_first_match_wins(
    defs: Seq<&'static ImageFormatDefinition>,
    data: Seq<u8>,
    i: int,
)
    requires
        are_builtins(defs),
        0 <= i < defs.len(),
    ensures
        format_for(defs, detecting(data)) == Some(builtin_order()[i]) <==> (looks_like(
            builtin_order()[i],
            data,
        ) && forall|j: int| 0 <= j < i ==> !#[trigger] looks_like(builtin_order()[j], data)),
{
    let p = detecting(data);
    lemma_first_where_holds(defs, p);
    assert forall|j: int| 0 <= j < defs.len() implies p(#[trigger] defs[j]) == looks_like(
        builtin_order()[j],
        data,
    ) by {
        assert(is_builtin(defs[j], builtin_order()[j]));
    }
    let k = first_where(defs, p);
    if looks_like(builtin_order()[i], data) && forall|j: int|
        0 <= j < i ==> !#[trigger] looks_like(builtin_order()[j], data) {
        assert forall|j: int| 0 <= j < i implies !p(#[trigger] defs[j]) by {
            assert(!looks_like(builtin_order()[j], data));
        }
        lemma_first_where(defs, p, i);
        assert(is_builtin(defs[i], builtin_order()[i]));
    }
    if format_for(defs, p) == Some(builtin_order()[i]) {
        assert(is_builtin(defs[k], builtin_order()[k]));
        assert(k == i);
        assert forall|j: int| 0 <= j < i implies !#[trigger] looks_like(builtin_order()[j], data) by {
            assert(!p(defs[j]));
        }
    }
}

/// A container of both brands is AVIF, unless its first bytes are those of a
/// JPEG file.
pub proof fn law_avif_wins_over_heic(defs: Seq<&'static ImageFormatDefinition>, data: Seq<u8>)
    requires
        are_builtins(defs),
        looks_like(ImageFormat::Avif, data),
        !looks_like(ImageFormat::Jpeg, data),
    ensures
        format_for(defs, detecting(data)) == Some(ImageFormat::Avif),
{
    assert(builtin_order()[4] == ImageFormat::Avif);
    assert forall|j: int| 0 <= j < 4 implies !#[trigger] looks_like(builtin_order()[j], data) by {
        reveal(crate::exif::codec::u32_at);
        assert(data[4] == 0x66 && data[5] == 0x74 && data[6] == 0x79 && data[7] == 0x70);
        if super::sniff::has_at(
            data,
            0,
            seq![0x89u8, 0x50, 0x4E, 0x47, 0x0D, 0x0A, 0x1A, 0x0A],
        ) {
            assert(data.subrange(0, 8)[4] == data[4]);
        }
        if super::sniff::has_at(data, 0, seq![0x47u8, 0x49, 0x46, 0x38, 0x37, 0x61]) {
            assert(data.subrange(0, 6)[4] == data[4]);
        }
        if super::sniff::has_at(data, 0, seq![0x47u8, 0x49, 0x46, 0x38, 0x39, 0x61]) {
            assert(data.subrange(0, 6)[4] == data[4]);
        }
        if super::sniff::has_at(data, 8, seq![0x57u8, 0x45, 0x42, 0x50]) {
            let b = data.subrange(8, 12);
            assert(b[0] == data[8] && b[1] == data[9] && b[2] == data[10] && b[3] == data[11]);
            assert(super::sniff::code_at(data, 8) == 0x57454250);
        }
    }
    law_first_match_wins(defs, data, 4);
}

/// A digital negative is never taken for a raw format, nor either for plain
/// TIFF, though they share its header.
pub proof fn law_most_specific_tiff_wins(defs: Seq<&'static ImageFormatDefinition>, data: Seq<u8>)
    requires
        are_builtins(defs),
    ensures
        looks_like(ImageFormat::Dng, data) ==> format_for(defs, detecting(data)) != Some(
            ImageFormat::Raw,
        ),
        looks_like(ImageFormat::Dng, data) || looks_like(ImageFormat::Raw, data) ==> format_for(
            defs,
            detecting(data),
        ) != Some(ImageFormat::Tiff),
{
    law_first_match_wins(defs, data, 11);
    law_first_match_wins(defs, data, 12);
    assert(builtin_order()[10] == ImageFormat::Dng);
    assert(builtin_order()[11] == ImageFormat::Raw);
    assert(builtin_order()[12] == ImageFormat::Tiff);
}

/// Every built-in format lists its primary extension and MIME type.
pub proof fn law_primary_names_are_listed(f: ImageFormat)
    ensures
        described(f) matches Some(d) ==> d.image_format == Some(f) && d.extensions.contains(
            d.preferred_extension,
        ) && d.mime_types.contains(d.preferred_mime_type),
{
    if let Some(d) = described(f) {
        if f == ImageFormat::Heic {
            assert(d.extensions[1] == d.preferred_extension);
        } else {
            assert(d.extensions[0] == d.preferred_extension);
        }
        assert(d.mime_types[0] == d.preferred_mime_type);
    }
}

/// What the built-in definition at `i` says.
proof fn lemma_builtin_at(defs: Seq<&'static ImageFormatDefinition>, i: int)
    requires
        are_builtins(defs),
        0 <= i < defs.len(),
    ensures
        described(builtin_order()[i]) == Some(defs[i]@),
        defs[i].format() == builtin_order()[i],
{
    assert(is_builtin(defs[i], builtin_order()[i]));
}

/// Every built-in format has its place in the order.
proof fn lemma_has_place(f: ImageFormat) -> (i: int)
    requires
        described(f) is Some,
    ensures
        0 <= i < builtin_order().len(),
        builtin_order()[i] == f,
{
    let o = builtin_order();
    assert(o.contains(f)) by {
        assert(o[0] == ImageFormat::Jpeg && o[1] == ImageFormat::Png && o[2] == ImageFormat::Gif
            && o[3] == ImageFormat::WebP && o[4] == ImageFormat::Avif && o[5] == ImageFormat::Jxl
            && o[6] == ImageFormat::Heic && o[7] == ImageFormat::Bmp && o[8]
            == ImageFormat::Farbfeld && o[9] == ImageFormat::Pnm && o[10] == ImageFormat::Dng
            && o[11] == ImageFormat::Raw && o[12] == ImageFormat::Tiff && o[13] == ImageFormat::Ico
            && o[14] == ImageFormat::Qoi && o[15] == ImageFormat::Pdf && o[16] == ImageFormat::Exr
            && o[17] == ImageFormat::Hdr && o[18] == ImageFormat::Jp2 && o[19] == ImageFormat::Tga
            && o[20] == ImageFormat::Svg);
    }
    o.index_of(f)
}

/// Every MIME type that a built-in format lists leads back to that format, in
/// any case.
pub proof fn law_listed_mime_types_lead_back(
    defs: Seq<&'static ImageFormatDefinition>,
    f: ImageFormat,
    m: Seq<char>,
    s: Seq<char>,
)
    requires
        are_builtins(defs),
        described(f) matches Some(d) && d.mime_types.contains(m),
        lower_bytes(s) == lower_bytes(m),
    ensures
        format_for(defs, with_mime_type(s)) == Some(f),
{
    let p = with_mime_type(s);
    let d = described(f)->0;
    let k = d.mime_types.index_of(m);
    assert(d.mime_types[k] == m);
    assert(has_mime_type(d.mime_types, s));
    let i = lemma_has_place(f);
    lemma_builtin_at(defs, i);
    lemma_first_where_holds(defs, p);
    let j = first_where(defs, p);
    assert(p(defs[i]));
    lemma_builtin_at(defs, j);
    lemma_mime_types_apart(builtin_order()[j], f, s);
}

/// Every file extension that a built-in format lists leads back to that format,
/// in any case.
pub proof fn law_listed_extensions_lead_back(
    defs: Seq<&'static ImageFormatDefinition>,
    f: ImageFormat,
    m: Seq<char>,
    s: Seq<char>,
)
    requires
        are_builtins(defs),
        described(f) matches Some(d) && d.extensions.contains(m),
        lower_bytes(s) == lower_bytes(m),
    ensures
        format_for(defs, with_extension(s)) == Some(f),
{
    let p = with_extension(s);
    let d = described(f)->0;
    let k = d.extensions.index_of(m);
    assert(d.extensions[k] == m);
    assert(has_extension(d.extensions, s));
    let i = lemma_has_place(f);
    lemma_builtin_at(defs, i);
    lemma_first_where_holds(defs, p);
    let j = first_where(defs, p);
    assert(p(defs[i]));
    lemma_builtin_at(defs, j);
    lemma_extensions_apart(builtin_order()[j], f, s);
}

/// A name that no built-in format lists, in any case, leads to none.
pub proof fn law_unlisted_names_lead_nowhere(
    defs: Seq<&'static ImageFormatDefinition>,
    s: Seq<char>,
)
    requires
        are_builtins(defs),
    ensures
        (forall|f: ImageFormat| #[trigger]
            described(f) matches Some(d) ==> !has_mime_type(d.mime_types, s)) ==> format_for(
            defs,
            with_mime_type(s),
        ) is None,
        (forall|f: ImageFormat| #[trigger]
            described(f) matches Some(d) ==> !has_extension(d.extensions, s)) ==> format_for(
            defs,
            with_extension(s),
        ) is None,
{
    let i = first_where(defs, with_mime_type(s));
    lemma_first_where_holds(defs, with_mime_type(s));
    if i < defs.len() {
        lemma_builtin_at(defs, i);
    }
    let j = first_where(defs, with_extension(s));
    lemma_first_where_holds(defs, with_extension(s));
    if j < defs.len() {
        lemma_builtin_at(defs, j);
    }
}

/// Spellings of a name that differ only in case lead to the same format.
pub proof fn law_lookup_ignores_case(
    defs: Seq<&'static ImageFormatDefinition>,
    s: Seq<char>,
    t: Seq<char>,
)
    requires
        lower_bytes(s) == lower_bytes(t),
    ensures
        format_for(defs, with_extension(s)) == format_for(defs, with_extension(t)),
        format_for(defs, with_mime_type(s)) == format_for(defs, with_mime_type(t)),
{
    lemma_first_where_holds(defs, with_extension(s));
    lemma_first_where(defs, with_extension(t), first_where(defs, with_extension(s)));
    lemma_first_where_holds(defs, with_mime_type(s));
    lemma_first_where(defs, with_mime_type(t), first_where(defs, with_mime_type(s)));
}

} // verus!
