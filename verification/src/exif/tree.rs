//! The EXIF tree and its parser.
use super::codec::{rd16, rd32, ByteOrder};
use super::model::{EntryView, ExifView, TextEncoding};
use super::tags::{
    type_size, MAX_IFD_ENTRIES, TAG_EXIF_IFD, TAG_GPS_IFD, TAG_INTEROP_IFD, TAG_THUMB_LENGTH,
    TAG_THUMB_OFFSET, TIFF_LONG, TIFF_SHORT,
};
use std::borrow::Cow;
use vstd::prelude::*;

verus! {

/// One directory entry. A borrowed value aliases the parsed source at
/// `value_offset` of its TIFF stream; an owned value was authored.
#[derive(Debug, PartialEq, Eq)]
pub struct Entry<'a> {
    pub tag: u16,
    pub kind: u16,
    pub count: u32,
    pub value: Cow<'a, [u8]>,
    pub value_offset: usize,
}

impl<'a> View for Entry<'a> {
    type V = EntryView;

    open spec fn view(&self) -> EntryView {
        EntryView {
            tag: self.tag,
            kind: self.kind,
            count: self.count,
            value: self.value@,
            borrowed: self.value is Borrowed,
            offset: self.value_offset as nat,
        }
    }
}

/// The models of a list of entries.
pub open spec fn views(entries: Seq<Entry<'_>>) -> Seq<EntryView> {
    entries.map_values(|e: Entry<'_>| e@)
}

/// Appending an entry appends its model.
pub proof fn lemma_views_push(entries: Seq<Entry<'_>>, e: Entry<'_>)
    ensures
        views(entries.push(e)) == views(entries).push(e@),
{
    assert(views(entries.push(e)) =~= views(entries).push(e@));
}

/// The models of an optional directory's entries.
pub open spec fn opt_views(entries: Option<Vec<Entry<'_>>>) -> Option<Seq<EntryView>> {
    match entries {
        Some(v) => Some(views(v@)),
        None => None,
    }
}

/// A parsed (or authored) EXIF tree. Values borrow the parsed source.
#[derive(Debug, PartialEq, Eq)]
pub struct Exif<'a> {
    pub order: ByteOrder,
    pub had_prefix: bool,
    pub ifd0: Vec<Entry<'a>>,
    pub exif_ifd: Option<Vec<Entry<'a>>>,
    pub gps_ifd: Option<Vec<Entry<'a>>>,
    pub ifd1: Option<Vec<Entry<'a>>>,
    pub thumbnail: Option<&'a [u8]>,
    pub text_encoding: TextEncoding,
}

impl<'a> View for Exif<'a> {
    type V = ExifView;

    open spec fn view(&self) -> ExifView {
        ExifView {
            order: self.order,
            had_prefix: self.had_prefix,
            ifd0: views(self.ifd0@),
            exif_ifd: opt_views(self.exif_ifd),
            gps_ifd: opt_views(self.gps_ifd),
            ifd1: opt_views(self.ifd1),
            thumbnail: match self.thumbnail {
                Some(t) => Some(t@),
                None => None,
            },
            text_encoding: self.text_encoding,
        }
    }
}

impl<'a> Entry<'a> {
    /// The value's bytes.
    pub fn bytes(&self) -> (r: &[u8])
        ensures
            r@ == self@.value,
    {
        match &self.value {
            Cow::Borrowed(b) => *b,
            Cow::Owned(v) => v.as_slice(),
        }
    }
}

impl<'a> Clone for Entry<'a> {
    /// A borrowed value stays borrowed from the same place.
    fn clone(&self) -> (r: Self)
        ensures
            r@ == self@,
    {
        Entry {
            tag: self.tag,
            kind: self.kind,
            count: self.count,
            value: match &self.value {
                Cow::Borrowed(b) => Cow::Borrowed(*b),
                Cow::Owned(v) => Cow::Owned(vstd::slice::slice_to_vec(v.as_slice())),
            },
            value_offset: self.value_offset,
        }
    }
}

/// A copy of a list of entries.
pub fn clone_entries<'a>(entries: &Vec<Entry<'a>>) -> (r: Vec<Entry<'a>>)
    ensures
        views(r@) == views(entries@),
{
    let mut out: Vec<Entry<'a>> = Vec::new();
    let mut i: usize = 0;
    while i < entries.len()
        invariant
            i <= entries@.len(),
            views(out@) == views(entries@).take(i as int),
        decreases entries@.len() - i,
    {
        let copy = entries[i].clone();
        proof {
            lemma_views_push(out@, copy);
            assert(views(entries@).take(i + 1) =~= views(entries@).take(i as int).push(copy@));
        }
        out.push(copy);
        i = i + 1;
    }
    assert(views(entries@).take(i as int) =~= views(entries@));
    out
}

/// A copy of an optional directory.
pub fn clone_opt<'a>(entries: &Option<Vec<Entry<'a>>>) -> (r: Option<Vec<Entry<'a>>>)
    ensures
        opt_views(r) == opt_views(*entries),
{
    match entries {
        Some(v) => Some(clone_entries(v)),
        None => None,
    }
}

impl<'a> Clone for Exif<'a> {
    /// Copies the tree; borrowed values and the thumbnail stay borrowed.
    fn clone(&self) -> (r: Self)
        ensures
            r@ == self@,
    {
        Exif {
            order: self.order,
            had_prefix: self.had_prefix,
            ifd0: clone_entries(&self.ifd0),
            exif_ifd: clone_opt(&self.exif_ifd),
            gps_ifd: clone_opt(&self.gps_ifd),
            ifd1: clone_opt(&self.ifd1),
            thumbnail: self.thumbnail,
            text_encoding: self.text_encoding,
        }
    }
}

/// Parse the directory at `off`.
pub fn parse_ifd<'a>(tiff: &'a [u8], off: usize, order: ByteOrder) -> (r: Option<
    (Vec<Entry<'a>>, u32),
>)
    ensures
        r is Some <==> super::model::ifd_at(tiff@, off as int, order) is Some,
        r matches Some((es, next)) ==> super::model::ifd_at(tiff@, off as int, order) == Some(
            (views(es@), next),
        ),
{
    let count: u16 = match rd16(tiff, off, order) {
        Some(c) => c,
        None => {
            return None;
        },
    };
    if count > MAX_IFD_ENTRIES {
        return None;
    }
    let len: usize = tiff.len();
    let start: usize = off + 2;
    let mut entries: Vec<Entry<'a>> = Vec::new();
    let mut i: usize = 0;
    let room: usize = (len - start) / 12;
    let rows: usize = if (count as usize) <= room {
        count as usize
    } else {
        room
    };
    assert(rows == super::model::rows_inside(tiff@.len() as int, start as int, count as int));
    assert(views(entries@) =~= Seq::<EntryView>::empty());
    while i < rows
        invariant
            i <= rows,
            rows <= 1000,
            len == tiff@.len(),
            start + 12 * rows <= tiff@.len(),
            views(entries@) == super::model::entries_at(tiff@, start as int, i as nat, order),
        decreases rows - i,
    {
        let e: usize = start + 12 * i;
        if let Some(entry) = resolve_entry(tiff, e, order) {
            proof {
                lemma_views_push(entries@, entry);
            }
            entries.push(entry);
        }
        i = i + 1;
    }
    let table: usize = 12 * (count as usize);
    let next: u32 = if len - start >= table {
        match rd32(tiff, start + table, order) {
            Some(n) => n,
            None => 0,
        }
    } else {
        0
    };
    Some((entries, next))
}

/// Parse the table row at `e`; `None` skips it.
pub fn resolve_entry<'a>(tiff: &'a [u8], e: usize, order: ByteOrder) -> (r: Option<Entry<'a>>)
    requires
        e + 12 <= tiff@.len(),
    ensures
        r is Some <==> super::model::entry_at(tiff@, e as int, order) is Some,
        r matches Some(en) ==> super::model::entry_at(tiff@, e as int, order) == Some(en@),
{
    let n: usize = tiff.len();
    let tag: u16 = rd16(tiff, e, order)?;
    let kind: u16 = rd16(tiff, e + 2, order)?;
    let count: u32 = rd32(tiff, e + 4, order)?;
    let size: usize = type_size(kind)?;
    assert((count as u64) * (size as u64) <= 0xFFFF_FFFF * 8) by (nonlinear_arith)
        requires
            count <= 0xFFFF_FFFF,
            size <= 8,
    ;
    let len: u64 = (count as u64) * (size as u64);
    let at: usize = if len <= 4 {
        e + 8
    } else {
        rd32(tiff, e + 8, order)? as usize
    };
    if at > n || len > (n - at) as u64 {
        return None;
    }
    let end: usize = at + (len as usize);
    Some(
        Entry {
            tag,
            kind,
            count,
            value: Cow::Borrowed(vstd::slice::slice_subrange(tiff, at, end)),
            value_offset: at,
        },
    )
}

/// What [`first_index`](super::model::first_index) finds is the first.
pub proof fn lemma_first_index(entries: Seq<EntryView>, tag: u16)
    ensures
        0 <= super::model::first_index(entries, tag) <= entries.len(),
        forall|j: int|
            0 <= j < super::model::first_index(entries, tag) ==> (#[trigger] entries[j]).tag != tag,
        super::model::first_index(entries, tag) < entries.len() ==> entries[super::model::first_index(
            entries,
            tag,
        )].tag == tag,
    decreases entries.len(),
{
    if entries.len() > 0 && entries[0].tag != tag {
        let rest = entries.drop_first();
        lemma_first_index(rest, tag);
        assert forall|j: int| 0 <= j < super::model::first_index(entries, tag) implies (
        #[trigger] entries[j]).tag != tag by {
            if j > 0 {
                assert(rest[j - 1] == entries[j]);
            }
        }
        let k = super::model::first_index(rest, tag);
        if k < rest.len() {
            assert(rest[k] == entries[k + 1]);
        }
    }
}

/// The index of the first entry that carries `tag`, or the length.
pub fn position<'a>(entries: &Vec<Entry<'a>>, tag: u16) -> (r: usize)
    ensures
        r == super::model::first_index(views(entries@), tag),
        r <= entries@.len(),
        r < entries@.len() ==> entries@[r as int].tag == tag,
{
    let mut i: usize = 0;
    while i < entries.len()
        invariant
            i <= entries@.len(),
            forall|j: int| 0 <= j < i ==> (#[trigger] views(entries@)[j]).tag != tag,
        decreases entries@.len() - i,
    {
        if entries[i].tag == tag {
            proof {
                lemma_first_index(views(entries@), tag);
                assert(views(entries@)[i as int].tag == tag);
            }
            return i;
        }
        i = i + 1;
    }
    proof {
        lemma_first_index(views(entries@), tag);
    }
    i
}

/// Take the pointer entry `tag` out of `entries` and give the offset it holds.
/// An entry too short for an offset stays.
pub fn take_pointer<'a>(entries: &mut Vec<Entry<'a>>, tag: u16, order: ByteOrder) -> (r: Option<
    usize,
>)
    ensures
        views(final(entries)@) == super::model::without_pointer(views(old(entries)@), tag, order),
        r is Some <==> super::model::pointer_in(views(old(entries)@), tag, order) is Some,
        r matches Some(o) ==> super::model::pointer_in(views(old(entries)@), tag, order) == Some(
            o as u32,
        ) && o <= u32::MAX,
{
    let pos: usize = position(entries, tag);
    if pos >= entries.len() {
        return None;
    }
    let off: u32 = match rd32(entries[pos].bytes(), 0, order) {
        Some(o) => o,
        None => {
            return None;
        },
    };
    let ghost before = entries@;
    entries.remove(pos);
    assert(views(entries@) =~= views(before).remove(pos as int));
    Some(off as usize)
}

/// Drop the entries that carry `a` or `b`.
pub fn drop_tags<'a>(entries: &Vec<Entry<'a>>, a: u16, b: u16) -> (r: Vec<Entry<'a>>)
    ensures
        views(r@) == super::model::without_tags(views(entries@), a, b),
{
    let ghost p = |e: EntryView| e.tag != a && e.tag != b;
    let mut out: Vec<Entry<'a>> = Vec::new();
    let mut i: usize = 0;
    assert(views(out@) =~= views(entries@).take(0).filter(p)) by {
        reveal(Seq::filter);
    }
    while i < entries.len()
        invariant
            i <= entries@.len(),
            p == (|e: EntryView| e.tag != a && e.tag != b),
            views(out@) == views(entries@).take(i as int).filter(p),
        decreases entries@.len() - i,
    {
        proof {
            reveal(Seq::filter);
            let t = views(entries@).take(i + 1);
            assert(t.drop_last() =~= views(entries@).take(i as int));
            assert(t.last() == entries@[i as int]@);
        }
        if entries[i].tag != a && entries[i].tag != b {
            let copy = entries[i].clone();
            proof {
                lemma_views_push(out@, copy);
            }
            out.push(copy);
        }
        i = i + 1;
    }
    assert(views(entries@).take(i as int) =~= views(entries@));
    out
}

/// Read a SHORT or LONG value.
pub fn read_uint(e: &Entry<'_>, order: ByteOrder) -> (r: Option<u32>)
    ensures
        r == super::model::uint_value(e@, order),
{
    if e.kind == TIFF_SHORT {
        match rd16(e.bytes(), 0, order) {
            Some(v) => Some(v as u32),
            None => None,
        }
    } else if e.kind == TIFF_LONG {
        rd32(e.bytes(), 0, order)
    } else {
        None
    }
}

/// The SHORT or LONG value of the first entry that carries `tag`.
pub fn uint_of_tag(entries: &Vec<Entry<'_>>, tag: u16, order: ByteOrder) -> (r: Option<u32>)
    ensures
        r == super::model::uint_of(views(entries@), tag, order),
{
    let pos: usize = position(entries, tag);
    if pos < entries.len() {
        read_uint(&entries[pos], order)
    } else {
        None
    }
}

impl<'a> Exif<'a> {
    /// Parse an EXIF blob, with or without the `Exif\0\0` marker.
    ///
    /// Lenient inside a directory (an unreadable entry is skipped, a truncated
    /// table gives what is there), strict about the header and the first
    /// directory.
    pub fn parse(data: &'a [u8]) -> (r: Option<Self>)
        ensures
            r is Some <==> super::model::parse_blob(data@) is Some,
            r matches Some(x) ==> super::model::parse_blob(data@) == Some(x@),
    {
        let n: usize = data.len();
        let had_prefix: bool = n >= 6 && data[0] == 0x45 && data[1] == 0x78 && data[2] == 0x69
            && data[3] == 0x66 && data[4] == 0 && data[5] == 0;
        proof {
            if n >= 6 {
                assert(data@.subrange(0, 6)[0] == data@[0]);
                assert(data@.subrange(0, 6)[1] == data@[1]);
                assert(data@.subrange(0, 6)[2] == data@[2]);
                assert(data@.subrange(0, 6)[3] == data@[3]);
                assert(data@.subrange(0, 6)[4] == data@[4]);
                assert(data@.subrange(0, 6)[5] == data@[5]);
                let p = super::model::exif_prefix();
                assert(p[0] == 0x45 && p[1] == 0x78 && p[2] == 0x69 && p[3] == 0x66 && p[4] == 0
                    && p[5] == 0);
            }
            assert(had_prefix == super::model::has_prefix(data@));
        }
        let tiff: &'a [u8] = if had_prefix {
            vstd::slice::slice_subrange(data, 6, n)
        } else {
            data
        };
        assert(tiff@ =~= super::model::tiff_of(data@));
        if tiff.len() < 8 {
            return None;
        }
        let order: ByteOrder = if tiff[0] == 0x4D && tiff[1] == 0x4D {
            ByteOrder::Big
        } else if tiff[0] == 0x49 && tiff[1] == 0x49 {
            ByteOrder::Little
        } else {
            return None;
        };
        let magic: u16 = rd16(tiff, 2, order)?;
        if magic != 42 {
            return None;
        }
        let off: u32 = rd32(tiff, 4, order)?;
        let (raw, next) = parse_ifd(tiff, off as usize, order)?;
        Some(build_tree(tiff, had_prefix, order, raw, next))
    }
}

/// The directory that the pointer `tag` of `entries` leads to; the pointer is
/// taken out of `entries`.
fn take_sub_ifd<'a>(
    tiff: &'a [u8],
    entries: &mut Vec<Entry<'a>>,
    tag: u16,
    order: ByteOrder,
) -> (r: Option<Vec<Entry<'a>>>)
    ensures
        views(final(entries)@) == super::model::without_pointer(views(old(entries)@), tag, order),
        opt_views(r) == super::model::sub_ifd(tiff@, views(old(entries)@), tag, order),
{
    match take_pointer(entries, tag, order) {
        Some(o) => match parse_ifd(tiff, o, order) {
            Some((es, _next)) => Some(es),
            None => None,
        },
        None => None,
    }
}

/// The thumbnail that a thumbnail directory locates.
fn find_thumbnail<'a>(tiff: &'a [u8], entries: &Vec<Entry<'a>>, order: ByteOrder) -> (r: Option<
    &'a [u8],
>)
    ensures
        r is Some <==> super::model::thumbnail_in(tiff@, views(entries@), order) is Some,
        r matches Some(t) ==> super::model::thumbnail_in(tiff@, views(entries@), order) == Some(t@),
{
    let n: usize = tiff.len();
    let o: u32 = uint_of_tag(entries, TAG_THUMB_OFFSET, order)?;
    let l: u32 = uint_of_tag(entries, TAG_THUMB_LENGTH, order)?;
    let end: u64 = o as u64 + l as u64;
    if end > n as u64 {
        return None;
    }
    Some(vstd::slice::slice_subrange(tiff, o as usize, end as usize))
}

/// Assemble the tree around a parsed first directory.
fn build_tree<'a>(
    tiff: &'a [u8],
    had_prefix: bool,
    order: ByteOrder,
    raw: Vec<Entry<'a>>,
    next: u32,
) -> (r: Exif<'a>)
    ensures
        r@ == super::model::tree_of(tiff@, had_prefix, order, views(raw@), next),
{
    let mut ifd0 = raw;
    let exif_ifd: Option<Vec<Entry<'a>>> = match take_sub_ifd(tiff, &mut ifd0, TAG_EXIF_IFD, order) {
        Some(mut es) => {
            take_pointer(&mut es, TAG_INTEROP_IFD, order);
            Some(es)
        },
        None => None,
    };
    let gps_ifd: Option<Vec<Entry<'a>>> = take_sub_ifd(tiff, &mut ifd0, TAG_GPS_IFD, order);
    let mut ifd1: Option<Vec<Entry<'a>>> = None;
    let mut thumbnail: Option<&'a [u8]> = None;
    if next != 0 {
        if let Some((es, _next)) = parse_ifd(tiff, next as usize, order) {
            thumbnail = find_thumbnail(tiff, &es, order);
            ifd1 = Some(
                if thumbnail.is_some() {
                    drop_tags(&es, TAG_THUMB_OFFSET, TAG_THUMB_LENGTH)
                } else {
                    es
                },
            );
        }
    }
    if exif_ifd.is_some() {
        ifd0 = drop_tags(&ifd0, TAG_EXIF_IFD, TAG_EXIF_IFD);
    }
    if gps_ifd.is_some() {
        ifd0 = drop_tags(&ifd0, TAG_GPS_IFD, TAG_GPS_IFD);
    }
    Exif {
        order,
        had_prefix,
        ifd0,
        exif_ifd,
        gps_ifd,
        ifd1,
        thumbnail,
        text_encoding: TextEncoding::Ascii,
    }
}

} // verus!
