//! The mathematical model of an EXIF tree and of its TIFF encoding.
use super::codec::ByteOrder;
use super::tags::{
    MAX_IFD_ENTRIES, TAG_EXIF_IFD, TAG_GPS_IFD, TAG_INTEROP_IFD, TAG_THUMB_LENGTH, TAG_THUMB_OFFSET,
    TIFF_LONG, TIFF_SHORT,
};
use vstd::prelude::*;

verus! {

/// How authored text fields are typed in the TIFF.
#[derive(Debug, Clone, Copy, PartialEq, Eq, Structural)]
#[non_exhaustive]
pub enum TextEncoding {
    /// Type 2 (ASCII), which every reader understands.
    Ascii,
    /// Type 129 (UTF-8, Exif 3.0).
    Utf8,
}

/// One directory entry. `borrowed` says whether the value aliases the stream
/// that it was read from, and `offset` where; of an authored value `offset` is
/// what is left of the entry that it took the place of, or zero.
#[verifier::ext_equal]
pub struct EntryView {
    pub tag: u16,
    pub kind: u16,
    pub count: u32,
    pub value: Seq<u8>,
    pub borrowed: bool,
    pub offset: nat,
}

impl EntryView {
    /// The offset in the TIFF stream that the value was read from; an authored
    /// value has none.
    pub open spec fn origin(self) -> Option<nat> {
        if self.borrowed {
            Some(self.offset)
        } else {
            None
        }
    }
}

/// An EXIF tree: the modelled directories, with the pointers between them and
/// the thumbnail's location taken out of the entry lists.
#[verifier::ext_equal]
pub struct ExifView {
    pub order: ByteOrder,
    pub had_prefix: bool,
    pub ifd0: Seq<EntryView>,
    pub exif_ifd: Option<Seq<EntryView>>,
    pub gps_ifd: Option<Seq<EntryView>>,
    pub ifd1: Option<Seq<EntryView>>,
    pub thumbnail: Option<Seq<u8>>,
    pub text_encoding: TextEncoding,
}

// ── Reading ─────────────────────────────────────────────────────────────────

/// The entry whose 12-byte table row starts at `e`. A value of at most four
/// bytes sits in the row itself; a longer one where the row points. `None` if
/// the type is unknown or the value is not inside `tiff`.
pub open spec fn entry_at(tiff: Seq<u8>, e: int, order: ByteOrder) -> Option<EntryView> {
    let tag = super::codec::u16_at(tiff, e, order);
    let kind = super::codec::u16_at(tiff, e + 2, order);
    let count = super::codec::u32_at(tiff, e + 4, order);
    match super::tags::element_size(kind) {
        None => None,
        Some(size) => {
            let len = (count * size) as int;
            let at = if len <= 4 {
                e + 8
            } else {
                super::codec::u32_at(tiff, e + 8, order) as int
            };
            if at + len <= tiff.len() {
                Some(EntryView {
                    tag,
                    kind,
                    count,
                    value: tiff.subrange(at, at + len),
                    borrowed: true,
                    offset: at as nat,
                })
            } else {
                None
            }
        },
    }
}

/// The readable entries among the first `n` rows of the table at `start`.
pub open spec fn entries_at(tiff: Seq<u8>, start: int, n: nat, order: ByteOrder) -> Seq<EntryView>
    decreases n,
{
    if n == 0 {
        Seq::empty()
    } else {
        let before = entries_at(tiff, start, (n - 1) as nat, order);
        match entry_at(tiff, start + 12 * (n - 1), order) {
            Some(e) => before.push(e),
            None => before,
        }
    }
}

/// How many of `count` table rows at `start` lie wholly inside `len` bytes.
pub open spec fn rows_inside(len: int, start: int, count: int) -> int {
    if start + 12 * count <= len {
        count
    } else {
        (len - start) / 12
    }
}

/// The directory at `off`: its readable entries and the offset of the next
/// directory. A truncated table gives the rows that are there, and a missing
/// next-offset reads as zero. `None` if there is no entry count at `off`, or
/// if the count is over the cap.
pub open spec fn ifd_at(tiff: Seq<u8>, off: int, order: ByteOrder) -> Option<
    (Seq<EntryView>, u32),
> {
    if off + 2 > tiff.len() || super::codec::u16_at(tiff, off, order) > MAX_IFD_ENTRIES {
        None
    } else {
        let count = super::codec::u16_at(tiff, off, order) as int;
        let start = off + 2;
        let rows = rows_inside(tiff.len() as int, start, count);
        let end = start + 12 * count;
        Some(
            (
                entries_at(tiff, start, rows as nat, order),
                if end + 4 <= tiff.len() {
                    super::codec::u32_at(tiff, end, order)
                } else {
                    0
                },
            ),
        )
    }
}

/// Index of the first entry that carries `tag`, or the length if none does.
pub open spec fn first_index(entries: Seq<EntryView>, tag: u16) -> int
    decreases entries.len(),
{
    if entries.len() == 0 || entries[0].tag == tag {
        0
    } else {
        1 + first_index(entries.drop_first(), tag)
    }
}

/// The first entry that carries `tag`.
pub open spec fn first_with(entries: Seq<EntryView>, tag: u16) -> Option<EntryView> {
    let i = first_index(entries, tag);
    if i < entries.len() {
        Some(entries[i])
    } else {
        None
    }
}

/// The offset that the first `tag` entry holds, if it has the four bytes for one.
pub open spec fn pointer_in(entries: Seq<EntryView>, tag: u16, order: ByteOrder) -> Option<u32> {
    match first_with(entries, tag) {
        Some(e) => if e.value.len() >= 4 {
            Some(super::codec::u32_at(e.value, 0, order))
        } else {
            None
        },
        None => None,
    }
}

/// `entries` without the pointer that [`pointer_in`] found.
pub open spec fn without_pointer(entries: Seq<EntryView>, tag: u16, order: ByteOrder) -> Seq<
    EntryView,
> {
    if pointer_in(entries, tag, order) is Some {
        entries.remove(first_index(entries, tag))
    } else {
        entries
    }
}

/// `entries` without those that carry `a` or `b`.
pub open spec fn without_tags(entries: Seq<EntryView>, a: u16, b: u16) -> Seq<EntryView> {
    entries.filter(|e: EntryView| e.tag != a && e.tag != b)
}

/// A SHORT or LONG value.
pub open spec fn uint_value(e: EntryView, order: ByteOrder) -> Option<u32> {
    if e.kind == TIFF_SHORT && e.value.len() >= 2 {
        Some(super::codec::u16_at(e.value, 0, order) as u32)
    } else if e.kind == TIFF_LONG && e.value.len() >= 4 {
        Some(super::codec::u32_at(e.value, 0, order))
    } else {
        None
    }
}

/// The SHORT or LONG value of the first entry that carries `tag`.
pub open spec fn uint_of(entries: Seq<EntryView>, tag: u16, order: ByteOrder) -> Option<u32> {
    match first_with(entries, tag) {
        Some(e) => uint_value(e, order),
        None => None,
    }
}

/// The thumbnail that a thumbnail directory locates inside `tiff`.
pub open spec fn thumbnail_in(
    tiff: Seq<u8>,
    entries: Seq<EntryView>,
    order: ByteOrder,
) -> Option<Seq<u8>> {
    match (uint_of(entries, TAG_THUMB_OFFSET, order), uint_of(entries, TAG_THUMB_LENGTH, order)) {
        (Some(o), Some(l)) => if o + l <= tiff.len() {
            Some(tiff.subrange(o as int, o + l))
        } else {
            None
        },
        _ => None,
    }
}

/// The entries of the directory that a pointer in `entries` leads to.
pub open spec fn sub_ifd(
    tiff: Seq<u8>,
    entries: Seq<EntryView>,
    tag: u16,
    order: ByteOrder,
) -> Option<Seq<EntryView>> {
    match pointer_in(entries, tag, order) {
        Some(o) => match ifd_at(tiff, o as int, order) {
            Some((es, _)) => Some(es),
            None => None,
        },
        None => None,
    }
}

/// The byte order that a TIFF header declares.
pub open spec fn header_order(tiff: Seq<u8>) -> Option<ByteOrder> {
    if tiff.len() < 8 {
        None
    } else if tiff[0] == 0x4D && tiff[1] == 0x4D {
        Some(ByteOrder::Big)
    } else if tiff[0] == 0x49 && tiff[1] == 0x49 {
        Some(ByteOrder::Little)
    } else {
        None
    }
}

/// The tree of a TIFF stream whose first directory has entries `raw` and
/// next-offset `next`.
pub open spec fn tree_of(
    tiff: Seq<u8>,
    had_prefix: bool,
    order: ByteOrder,
    raw: Seq<EntryView>,
    next: u32,
) -> ExifView {
    let exif_ifd = match sub_ifd(tiff, raw, TAG_EXIF_IFD, order) {
        Some(es) => Some(without_pointer(es, TAG_INTEROP_IFD, order)),
        None => None,
    };
    let rest = without_pointer(raw, TAG_EXIF_IFD, order);
    let gps_ifd = sub_ifd(tiff, rest, TAG_GPS_IFD, order);
    let rest = without_pointer(rest, TAG_GPS_IFD, order);
    let ifd1 = if next == 0 {
        None
    } else {
        match ifd_at(tiff, next as int, order) {
            Some((es, _)) => Some(es),
            None => None,
        }
    };
    let thumbnail = match ifd1 {
        Some(es) => thumbnail_in(tiff, es, order),
        None => None,
    };
    let rest = if exif_ifd is Some {
        without_tags(rest, TAG_EXIF_IFD, TAG_EXIF_IFD)
    } else {
        rest
    };
    let rest = if gps_ifd is Some {
        without_tags(rest, TAG_GPS_IFD, TAG_GPS_IFD)
    } else {
        rest
    };
    ExifView {
        order,
        had_prefix,
        ifd0: rest,
        exif_ifd,
        gps_ifd,
        ifd1: match ifd1 {
            Some(es) => Some(
                if thumbnail is Some {
                    without_tags(es, TAG_THUMB_OFFSET, TAG_THUMB_LENGTH)
                } else {
                    es
                },
            ),
            None => None,
        },
        thumbnail,
        text_encoding: TextEncoding::Ascii,
    }
}

/// The tree of a TIFF stream. `None` without a valid header or first directory.
pub open spec fn parse_tiff(tiff: Seq<u8>, had_prefix: bool) -> Option<ExifView> {
    match header_order(tiff) {
        None => None,
        Some(order) => if super::codec::u16_at(tiff, 2, order) != 42 {
            None
        } else {
            match ifd_at(tiff, super::codec::u32_at(tiff, 4, order) as int, order) {
                None => None,
                Some((raw, next)) => Some(tree_of(tiff, had_prefix, order, raw, next)),
            }
        },
    }
}

/// The `Exif\0\0` marker that may precede the TIFF stream.
pub open spec fn exif_prefix() -> Seq<u8> {
    seq![0x45u8, 0x78, 0x69, 0x66, 0, 0]
}

/// Whether `data` starts with [`exif_prefix`].
pub open spec fn has_prefix(data: Seq<u8>) -> bool {
    data.len() >= 6 && data.subrange(0, 6) =~= exif_prefix()
}

/// The TIFF stream of a blob: what follows the marker, if there is one.
pub open spec fn tiff_of(data: Seq<u8>) -> Seq<u8> {
    if has_prefix(data) {
        data.skip(6)
    } else {
        data
    }
}

/// The tree of an EXIF blob, with or without the marker.
pub open spec fn parse_blob(data: Seq<u8>) -> Option<ExifView> {
    parse_tiff(tiff_of(data), has_prefix(data))
}

} // verus!
