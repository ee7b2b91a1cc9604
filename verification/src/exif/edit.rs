//! Reading fields of an EXIF tree and authoring them.
use super::codec::{bytes16, bytes32, put16, put32, ByteOrder};
use super::model::{first_index, first_with, uint_of, EntryView, ExifView, TextEncoding};
use super::policy::{ExifPolicy, Retention};
use super::tags::{
    category_of, classify, Category, TAG_ARTIST, TAG_COPYRIGHT, TAG_ORIENTATION, TIFF_ASCII,
    TIFF_LONG, TIFF_SHORT, TIFF_UTF8,
};
use super::tree::{clone_opt, lemma_views_push, position, uint_of_tag, views, Entry, Exif};
use crate::orientation::Orientation;
use std::borrow::Cow;
use vstd::prelude::*;

verus! {

broadcast use {super::codec::lemma_bytes16_len, super::codec::lemma_bytes32_len};

// ── Reading ─────────────────────────────────────────────────────────────────

/// Index of the first NUL, or the length.
pub open spec fn nul_index(v: Seq<u8>) -> int
    decreases v.len(),
{
    if v.len() == 0 || v[0] == 0 {
        0
    } else {
        1 + nul_index(v.drop_first())
    }
}

/// The text bytes of the first `tag` entry: what precedes the first NUL of an
/// ASCII or UTF-8 value. Absent, wrongly typed and empty text read as `None`.
pub open spec fn text_of(entries: Seq<EntryView>, tag: u16) -> Option<Seq<u8>> {
    match first_with(entries, tag) {
        Some(e) => if (e.kind == TIFF_ASCII || e.kind == TIFF_UTF8) && nul_index(e.value) > 0 {
            Some(e.value.take(nul_index(e.value)))
        } else {
            None
        },
        None => None,
    }
}

/// The text that `String::from_utf8_lossy` makes of bytes.
pub uninterp spec fn utf8_lossy(bytes: Seq<u8>) -> Seq<char>;

/// `String::from_utf8_lossy`: valid UTF-8 is decoded and stays borrowed; in
/// anything else the invalid sequences are replaced, which takes a new string.
/// What is put in their place is left to the name [`utf8_lossy`].
#[verifier::external_body]
fn lossy_text<'e>(bytes: &'e [u8]) -> (r: Cow<'e, str>)
    ensures
        r@ == utf8_lossy(bytes@),
        r is Borrowed <==> vstd::utf8::valid_utf8(bytes@),
        vstd::utf8::valid_utf8(bytes@) ==> r@ == vstd::utf8::decode_utf8(bytes@),
{
    String::from_utf8_lossy(bytes)
}

/// The orientation that the first orientation tag declares.
pub open spec fn orientation_of(entries: Seq<EntryView>, order: ByteOrder) -> Option<Orientation> {
    match uint_of(entries, TAG_ORIENTATION, order) {
        Some(raw) => Orientation::of_code(raw as int),
        None => None,
    }
}

/// Whether a tag of category `c` is among `entries`.
pub open spec fn has_category_in(entries: Seq<EntryView>, c: Category) -> bool {
    exists|i: int| 0 <= i < entries.len() && category_of((#[trigger] entries[i]).tag) == c
}

impl ExifView {
    /// Whether the first or the Exif directory holds a tag of category `c`.
    pub open spec fn holds_category(self, c: Category) -> bool {
        has_category_in(self.ifd0, c) || (self.exif_ifd matches Some(d) && has_category_in(d, c))
    }
}

/// What [`nul_index`] finds is the first.
pub proof fn lemma_nul_index(v: Seq<u8>)
    ensures
        0 <= nul_index(v) <= v.len(),
        forall|j: int| 0 <= j < nul_index(v) ==> #[trigger] v[j] != 0,
        nul_index(v) < v.len() ==> v[nul_index(v)] == 0,
    decreases v.len(),
{
    if v.len() > 0 && v[0] != 0 {
        let r = v.drop_first();
        lemma_nul_index(r);
        assert forall|j: int| 0 <= j < nul_index(v) implies #[trigger] v[j] != 0 by {
            if j > 0 {
                assert(r[j - 1] == v[j]);
            }
        }
        if nul_index(r) < r.len() {
            assert(r[nul_index(r)] == v[nul_index(r) + 1]);
        }
    }
}

/// The bytes of a text entry up to its first NUL.
fn ascii_bytes<'e>(entries: &'e Vec<Entry<'_>>, tag: u16) -> (r: Option<&'e [u8]>)
    ensures
        r is Some <==> text_of(views(entries@), tag) is Some,
        r matches Some(b) ==> text_of(views(entries@), tag) == Some(b@),
{
    let pos: usize = position(entries, tag);
    if pos >= entries.len() {
        return None;
    }
    let e: &'e Entry<'_> = &entries[pos];
    if e.kind != TIFF_ASCII && e.kind != TIFF_UTF8 {
        return None;
    }
    let value: &'e [u8] = e.bytes();
    let mut end: usize = 0;
    while end < value.len() && value[end] != 0
        invariant
            end <= value@.len(),
            forall|j: int| 0 <= j < end ==> #[trigger] value@[j] != 0,
        decreases value@.len() - end,
    {
        end = end + 1;
    }
    proof {
        lemma_nul_index(value@);
    }
    if end == 0 {
        None
    } else {
        let text: &'e [u8] = vstd::slice::slice_subrange(value, 0, end);
        assert(text@ =~= value@.take(end as int));
        Some(text)
    }
}

/// The text of an entry as a string.
fn ascii_value<'e>(entries: &'e Vec<Entry<'_>>, tag: u16) -> (r: Option<Cow<'e, str>>)
    ensures
        text_of(views(entries@), tag) is None <==> r is None,
        r matches Some(t) ==> text_of(views(entries@), tag) matches Some(b) && text_shown(b, t),
{
    match ascii_bytes(entries, tag) {
        Some(b) => Some(lossy_text(b)),
        None => None,
    }
}

/// `t` is the lossy view of `b`: the decoded text, borrowed, where `b` is valid
/// UTF-8.
pub open spec fn text_shown(b: Seq<u8>, t: Cow<'_, str>) -> bool {
    &&& t@ == utf8_lossy(b)
    &&& t is Borrowed <==> vstd::utf8::valid_utf8(b)
    &&& vstd::utf8::valid_utf8(b) ==> t@ == vstd::utf8::decode_utf8(b)
}

/// Whether `entries` hold a tag of category `c`.
fn any_of_category(entries: &Vec<Entry<'_>>, c: Category) -> (r: bool)
    ensures
        r == has_category_in(views(entries@), c),
{
    let mut i: usize = 0;
    while i < entries.len()
        invariant
            i <= entries@.len(),
            forall|j: int|
                0 <= j < i ==> category_of((#[trigger] views(entries@)[j]).tag) != c,
        decreases entries@.len() - i,
    {
        if classify(entries[i].tag) == c {
            assert(category_of(views(entries@)[i as int].tag) == c);
            return true;
        }
        i = i + 1;
    }
    false
}

impl<'a> Exif<'a> {
    /// The byte order.
    pub fn byte_order(&self) -> (r: ByteOrder)
        ensures
            r == self@.order,
    {
        self.order
    }

    /// The orientation, if the tag is there with a valid SHORT or LONG value.
    pub fn orientation(&self) -> (r: Option<Orientation>)
        ensures
            r == orientation_of(self@.ifd0, self@.order),
    {
        match uint_of_tag(&self.ifd0, TAG_ORIENTATION, self.order) {
            Some(raw) => if raw <= 255 {
                Orientation::from_exif(raw as u8)
            } else {
                None
            },
            None => None,
        }
    }

    /// The copyright notice as text; invalid UTF-8 is shown with replacements.
    pub fn copyright(&self) -> (r: Option<Cow<'_, str>>)
        ensures
            text_of(self@.ifd0, TAG_COPYRIGHT) is None <==> r is None,
            r matches Some(t) ==> text_of(self@.ifd0, TAG_COPYRIGHT) matches Some(b) && text_shown(
                b,
                t,
            ),
    {
        ascii_value(&self.ifd0, TAG_COPYRIGHT)
    }

    /// The artist as text; invalid UTF-8 is shown with replacements.
    pub fn artist(&self) -> (r: Option<Cow<'_, str>>)
        ensures
            text_of(self@.ifd0, TAG_ARTIST) is None <==> r is None,
            r matches Some(t) ==> text_of(self@.ifd0, TAG_ARTIST) matches Some(b) && text_shown(
                b,
                t,
            ),
    {
        ascii_value(&self.ifd0, TAG_ARTIST)
    }

    /// The bytes of the copyright notice.
    pub fn copyright_bytes(&self) -> (r: Option<&[u8]>)
        ensures
            r is Some <==> text_of(self@.ifd0, TAG_COPYRIGHT) is Some,
            r matches Some(b) ==> text_of(self@.ifd0, TAG_COPYRIGHT) == Some(b@),
    {
        ascii_bytes(&self.ifd0, TAG_COPYRIGHT)
    }

    /// The bytes of the artist.
    pub fn artist_bytes(&self) -> (r: Option<&[u8]>)
        ensures
            r is Some <==> text_of(self@.ifd0, TAG_ARTIST) is Some,
            r matches Some(b) ==> text_of(self@.ifd0, TAG_ARTIST) == Some(b@),
    {
        ascii_bytes(&self.ifd0, TAG_ARTIST)
    }

    /// Whether a thumbnail was captured.
    pub fn has_thumbnail(&self) -> (b: bool)
        ensures
            b == self@.thumbnail is Some,
    {
        self.thumbnail.is_some()
    }

    /// Whether there is a GPS directory.
    pub fn has_gps(&self) -> (b: bool)
        ensures
            b == self@.gps_ifd is Some,
    {
        self.gps_ifd.is_some()
    }

    /// Whether a device- or software-identity tag is there.
    pub fn has_camera(&self) -> (b: bool)
        ensures
            b == self@.holds_category(Category::Camera),
    {
        self.has_category(Category::Camera)
    }

    /// Whether a timestamp tag is there.
    pub fn has_datetimes(&self) -> (b: bool)
        ensures
            b == self@.holds_category(Category::Datetimes),
    {
        self.has_category(Category::Datetimes)
    }

    fn has_category(&self, c: Category) -> (b: bool)
        ensures
            b == self@.holds_category(c),
    {
        if any_of_category(&self.ifd0, c) {
            return true;
        }
        match &self.exif_ifd {
            Some(d) => any_of_category(d, c),
            None => false,
        }
    }
}

// ── Authoring ───────────────────────────────────────────────────────────────

/// `entries` with `e` in place of the first entry that carries its tag, or at
/// the end.
pub open spec fn put_entry(entries: Seq<EntryView>, e: EntryView) -> Seq<EntryView> {
    let i = first_index(entries, e.tag);
    if i < entries.len() {
        entries.update(i, e)
    } else {
        entries.push(e)
    }
}

/// An authored text entry: the UTF-8 bytes and a terminating NUL.
pub open spec fn text_entry(tag: u16, text: Seq<char>, encoding: TextEncoding) -> EntryView {
    let value = vstd::utf8::encode_utf8(text).push(0);
    EntryView {
        tag,
        kind: match encoding {
            TextEncoding::Ascii => TIFF_ASCII,
            TextEncoding::Utf8 => TIFF_UTF8,
        },
        count: value.len() as u32,
        value,
        borrowed: false,
        offset: 0,
    }
}

/// `v` as a SHORT or LONG value; no other type holds it.
pub open spec fn uint_field(kind: u16, v: u8, order: ByteOrder) -> Option<Seq<u8>> {
    if kind == TIFF_SHORT {
        Some(bytes16(v as u16, order))
    } else if kind == TIFF_LONG {
        Some(bytes32(v as u32, order))
    } else {
        None
    }
}

/// The canonical orientation entry.
pub open spec fn orientation_entry_view(o: Orientation, order: ByteOrder) -> EntryView {
    EntryView {
        tag: TAG_ORIENTATION,
        kind: TIFF_SHORT,
        count: 1,
        value: bytes16(o.code() as u16, order),
        borrowed: false,
        offset: 0,
    }
}

/// An entry whose integer value was replaced by one authored element.
pub open spec fn with_uint(e: EntryView, value: Seq<u8>) -> EntryView {
    EntryView { count: 1, value, borrowed: false, ..e }
}

/// `entries` with the orientation set: the first orientation entry keeps an
/// integer type and is replaced otherwise; without one, one is added.
pub open spec fn orientation_put(
    entries: Seq<EntryView>,
    o: Orientation,
    order: ByteOrder,
) -> Seq<EntryView> {
    match first_with(entries, TAG_ORIENTATION) {
        Some(e) => match uint_field(e.kind, o.code(), order) {
            Some(value) => put_entry(entries, with_uint(e, value)),
            None => put_entry(entries, orientation_entry_view(o, order)),
        },
        None => put_entry(entries, orientation_entry_view(o, order)),
    }
}

/// `entries` with the orientation reconciled: only an existing integer
/// orientation entry is rewritten.
pub open spec fn orientation_reconciled(
    entries: Seq<EntryView>,
    o: Orientation,
    order: ByteOrder,
) -> Seq<EntryView> {
    match first_with(entries, TAG_ORIENTATION) {
        Some(e) => match uint_field(e.kind, o.code(), order) {
            Some(value) => put_entry(entries, with_uint(e, value)),
            None => entries,
        },
        None => entries,
    }
}

/// Put `e` in place of the first entry that carries its tag, or at the end.
fn put<'a>(entries: &mut Vec<Entry<'a>>, e: Entry<'a>)
    ensures
        views(final(entries)@) == put_entry(views(old(entries)@), e@),
{
    let pos: usize = position(entries, e.tag);
    let ghost before = entries@;
    let ghost model = e@;
    if pos < entries.len() {
        entries.set(pos, e);
        assert(views(entries@) =~= views(before).update(pos as int, model));
    } else {
        proof {
            lemma_views_push(before, e);
        }
        entries.push(e);
    }
}

/// Put a NUL-terminated text entry.
fn set_ifd0_string(entries: &mut Vec<Entry<'_>>, tag: u16, text: &str, encoding: TextEncoding)
    ensures
        views(final(entries)@) == put_entry(views(old(entries)@), text_entry(tag, text@, encoding)),
{
    let kind: u16 = match encoding {
        TextEncoding::Ascii => TIFF_ASCII,
        TextEncoding::Utf8 => TIFF_UTF8,
    };
    let mut bytes: Vec<u8> = vstd::slice::slice_to_vec(text.as_bytes());
    bytes.push(0);
    let count: u32 = bytes.len() as u32;
    put(entries, Entry { tag, kind, count, value: Cow::Owned(bytes), value_offset: 0 });
}

/// `v` as a SHORT or LONG value.
fn int_bytes(kind: u16, v: u8, order: ByteOrder) -> (r: Option<Vec<u8>>)
    ensures
        r is Some <==> uint_field(kind, v, order) is Some,
        r matches Some(b) ==> uint_field(kind, v, order) == Some(b@),
{
    let mut out: Vec<u8> = Vec::new();
    if kind == TIFF_SHORT {
        put16(&mut out, v as u16, order);
        assert(out@ =~= bytes16(v as u16, order));
        Some(out)
    } else if kind == TIFF_LONG {
        put32(&mut out, v as u32, order);
        assert(out@ =~= bytes32(v as u32, order));
        Some(out)
    } else {
        None
    }
}

/// The canonical orientation entry.
fn orientation_entry<'a>(o: Orientation, order: ByteOrder) -> (e: Entry<'a>)
    ensures
        e@ == orientation_entry_view(o, order),
{
    let mut value: Vec<u8> = Vec::new();
    put16(&mut value, o.to_exif() as u16, order);
    assert(value@ =~= bytes16(o.code() as u16, order));
    Entry { tag: TAG_ORIENTATION, kind: TIFF_SHORT, count: 1, value: Cow::Owned(value), value_offset: 0 }
}

impl<'a> Exif<'a> {
    /// An empty little-endian tree without the marker; authored text gets the
    /// type of `text_encoding`.
    pub fn new(text_encoding: TextEncoding) -> (r: Self)
        ensures
            r@ == (ExifView {
                order: ByteOrder::Little,
                had_prefix: false,
                ifd0: Seq::empty(),
                exif_ifd: None,
                gps_ifd: None,
                ifd1: None,
                thumbnail: None,
                text_encoding,
            }),
    {
        let r = Exif {
            order: ByteOrder::Little,
            had_prefix: false,
            ifd0: Vec::new(),
            exif_ifd: None,
            gps_ifd: None,
            ifd1: None,
            thumbnail: None,
            text_encoding,
        };
        assert(views(r.ifd0@) =~= Seq::<EntryView>::empty());
        r
    }

    /// Set the copyright notice.
    pub fn set_copyright(&mut self, text: &str)
        ensures
            final(self)@ == (ExifView {
                ifd0: put_entry(
                    old(self)@.ifd0,
                    text_entry(TAG_COPYRIGHT, text@, old(self)@.text_encoding),
                ),
                ..old(self)@
            }),
    {
        set_ifd0_string(&mut self.ifd0, TAG_COPYRIGHT, text, self.text_encoding);
    }

    /// Set the artist.
    pub fn set_artist(&mut self, text: &str)
        ensures
            final(self)@ == (ExifView {
                ifd0: put_entry(
                    old(self)@.ifd0,
                    text_entry(TAG_ARTIST, text@, old(self)@.text_encoding),
                ),
                ..old(self)@
            }),
    {
        set_ifd0_string(&mut self.ifd0, TAG_ARTIST, text, self.text_encoding);
    }

    /// Set the orientation, adding the tag where there is none.
    pub fn set_orientation(&mut self, o: Orientation)
        ensures
            final(self)@ == (ExifView {
                ifd0: orientation_put(old(self)@.ifd0, o, old(self)@.order),
                ..old(self)@
            }),
    {
        let pos: usize = position(&self.ifd0, TAG_ORIENTATION);
        if pos < self.ifd0.len() {
            let kind: u16 = self.ifd0[pos].kind;
            let value_offset: usize = self.ifd0[pos].value_offset;
            if let Some(value) = int_bytes(kind, o.to_exif(), self.order) {
                put(
                    &mut self.ifd0,
                    Entry {
                        tag: TAG_ORIENTATION,
                        kind,
                        count: 1,
                        value: Cow::Owned(value),
                        value_offset,
                    },
                );
                return;
            }
        }
        put(&mut self.ifd0, orientation_entry(o, self.order));
    }

    /// Rewrite an existing integer orientation entry to `o`. Reconciling never
    /// adds a tag nor repairs one of another type.
    pub fn set_orientation_tag(&mut self, o: Orientation)
        ensures
            final(self)@ == (ExifView {
                ifd0: orientation_reconciled(old(self)@.ifd0, o, old(self)@.order),
                ..old(self)@
            }),
    {
        let pos: usize = position(&self.ifd0, TAG_ORIENTATION);
        if pos < self.ifd0.len() {
            let kind: u16 = self.ifd0[pos].kind;
            let value_offset: usize = self.ifd0[pos].value_offset;
            if let Some(value) = int_bytes(kind, o.to_exif(), self.order) {
                put(
                    &mut self.ifd0,
                    Entry {
                        tag: TAG_ORIENTATION,
                        kind,
                        count: 1,
                        value: Cow::Owned(value),
                        value_offset,
                    },
                );
            }
        }
    }
}

impl<'a> Default for Exif<'a> {
    /// An empty tree that authors ASCII text.
    fn default() -> (r: Self)
        ensures
            r@ == (ExifView {
                order: ByteOrder::Little,
                had_prefix: false,
                ifd0: Seq::empty(),
                exif_ifd: None,
                gps_ifd: None,
                ifd1: None,
                thumbnail: None,
                text_encoding: TextEncoding::Ascii,
            }),
    {
        Exif::new(TextEncoding::Ascii)
    }
}

// ── Pruning ─────────────────────────────────────────────────────────────────

/// The entries that a rewrite under `policy` carries.
pub open spec fn pruned(entries: Seq<EntryView>, policy: ExifPolicy) -> Seq<EntryView> {
    entries.filter(|e: EntryView| policy.keeps_tag(e.tag))
}

impl ExifView {
    /// The tree pruned by `policy`. An Exif directory that loses every entry
    /// goes; a kept thumbnail directory stays even when empty.
    pub open spec fn pruned(self, policy: ExifPolicy) -> ExifView {
        ExifView {
            ifd0: pruned(self.ifd0, policy),
            exif_ifd: match self.exif_ifd {
                Some(d) => if pruned(d, policy).len() > 0 {
                    Some(pruned(d, policy))
                } else {
                    None
                },
                None => None,
            },
            gps_ifd: if policy.gps == Retention::Keep {
                self.gps_ifd
            } else {
                None
            },
            ifd1: if policy.thumbnail == Retention::Keep {
                match self.ifd1 {
                    Some(d) => Some(pruned(d, policy)),
                    None => None,
                }
            } else {
                None
            },
            thumbnail: if policy.thumbnail == Retention::Keep {
                self.thumbnail
            } else {
                None
            },
            ..self
        }
    }

    /// Whether the tree has no directory to write.
    pub open spec fn is_bare(self) -> bool {
        self.ifd0.len() == 0 && self.exif_ifd is None && self.gps_ifd is None && self.ifd1 is None
    }
}

/// Copy the entries that a rewrite under `policy` carries.
fn prune<'a>(entries: &Vec<Entry<'a>>, policy: &ExifPolicy) -> (r: Vec<Entry<'a>>)
    ensures
        views(r@) == pruned(views(entries@), *policy),
{
    let ghost p = |e: EntryView| policy.keeps_tag(e.tag);
    let mut out: Vec<Entry<'a>> = Vec::new();
    let mut i: usize = 0;
    assert(views(out@) =~= views(entries@).take(0).filter(p)) by {
        reveal(Seq::filter);
    }
    while i < entries.len()
        invariant
            i <= entries@.len(),
            p == (|e: EntryView| policy.keeps_tag(e.tag)),
            views(out@) == views(entries@).take(i as int).filter(p),
        decreases entries@.len() - i,
    {
        proof {
            reveal(Seq::filter);
            let t = views(entries@).take(i + 1);
            assert(t.drop_last() =~= views(entries@).take(i as int));
            assert(t.last() == entries@[i as int]@);
        }
        if policy.carries(entries[i].tag) {
            let copy = entries[i].clone();
            proof {
                lemma_views_push(out@, copy);
            }
            out.push(copy);
        }
        i = i + 1;
    }
    assert(views(entries@).take(i as int) =~= views(entries@));
    out
}

impl<'a> Exif<'a> {
    /// The tree with what `policy` discards taken out, together with every tag
    /// whose value locates bytes that a rewrite would move.
    pub fn filtered(&self, policy: &ExifPolicy) -> (r: Exif<'a>)
        ensures
            r@ == self@.pruned(*policy),
    {
        let exif_ifd: Option<Vec<Entry<'a>>> = match &self.exif_ifd {
            Some(d) => {
                let kept: Vec<Entry<'a>> = prune(d, policy);
                assert(views(kept@).len() == kept@.len());
                if kept.len() > 0 {
                    Some(kept)
                } else {
                    None
                }
            },
            None => None,
        };
        let gps_ifd: Option<Vec<Entry<'a>>> = if policy.gps.keeps() {
            clone_opt(&self.gps_ifd)
        } else {
            None
        };
        let ifd1: Option<Vec<Entry<'a>>> = if policy.thumbnail.keeps() {
            match &self.ifd1 {
                Some(d) => Some(prune(d, policy)),
                None => None,
            }
        } else {
            None
        };
        Exif {
            order: self.order,
            had_prefix: self.had_prefix,
            ifd0: prune(&self.ifd0, policy),
            exif_ifd,
            gps_ifd,
            ifd1,
            thumbnail: if policy.thumbnail.keeps() {
                self.thumbnail
            } else {
                None
            },
            text_encoding: self.text_encoding,
        }
    }
}

} // verus!
