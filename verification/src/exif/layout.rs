//! The canonical TIFF encoding of an EXIF tree.
//!
//! A directory is written with its entries in tag order, followed by the
//! values that do not fit a table row, in that same order. Values read from the
//! same place of one source are stored once.
use super::codec::{bytes16, bytes32, ByteOrder};
use super::model::{exif_prefix, EntryView, ExifView};
use super::tags::{TAG_EXIF_IFD, TAG_GPS_IFD, TAG_THUMB_LENGTH, TAG_THUMB_OFFSET, TIFF_LONG};
use vstd::prelude::*;

verus! {

broadcast use {super::codec::lemma_bytes16_len, super::codec::lemma_bytes32_len};

/// `e` put behind the entries of `s` whose tag is not greater, from the end.
pub open spec fn insert_by_tag(s: Seq<EntryView>, e: EntryView) -> Seq<EntryView>
    decreases s.len(),
{
    if s.len() == 0 || s.last().tag <= e.tag {
        s.push(e)
    } else {
        insert_by_tag(s.drop_last(), e).push(s.last())
    }
}

/// The entries in tag order; entries with one tag keep their order.
pub open spec fn sort_by_tag(s: Seq<EntryView>) -> Seq<EntryView>
    decreases s.len(),
{
    if s.len() == 0 {
        s
    } else {
        insert_by_tag(sort_by_tag(s.drop_last()), s.last())
    }
}

/// Whether the value is too long for a table row.
pub open spec fn out_of_line(e: EntryView) -> bool {
    e.value.len() > 4
}

/// Whether two out-of-line values are the same bytes of the same source.
pub open spec fn aliases(a: EntryView, b: EntryView) -> bool {
    out_of_line(a) && a.origin() is Some && a.origin() == b.origin() && a.value == b.value
}

/// Whether `before` already holds the bytes of `e`.
pub open spec fn has_alias(before: Seq<EntryView>, e: EntryView) -> bool {
    exists|j: int| 0 <= j < before.len() && aliases(#[trigger] before[j], e)
}

/// The value, filled up to an even length.
pub open spec fn padded(v: Seq<u8>) -> Seq<u8> {
    if v.len() % 2 == 1 {
        v.push(0)
    } else {
        v
    }
}

/// The out-of-line bytes of a directory.
pub open spec fn ext_data(items: Seq<EntryView>) -> Seq<u8>
    decreases items.len(),
{
    if items.len() == 0 {
        Seq::empty()
    } else {
        let before = items.drop_last();
        let e = items.last();
        if out_of_line(e) && !has_alias(before, e) {
            ext_data(before) + padded(e.value)
        } else {
            ext_data(before)
        }
    }
}

/// Where in the out-of-line bytes the value of `e` is, when `e` follows `before`.
pub open spec fn slot(before: Seq<EntryView>, e: EntryView) -> nat
    decreases before.len(),
{
    if before.len() == 0 {
        0
    } else if has_alias(before.drop_last(), e) {
        slot(before.drop_last(), e)
    } else if aliases(before.last(), e) {
        ext_data(before.drop_last()).len()
    } else {
        ext_data(before).len()
    }
}

/// The last four bytes of a table row that holds its value.
pub open spec fn inline_field(v: Seq<u8>) -> Seq<u8> {
    Seq::new(
        4,
        |i: int|
            if i < v.len() {
                v[i]
            } else {
                0u8
            },
    )
}

/// The table row of `items[i]`, in a directory whose out-of-line bytes start at
/// `ext_base`.
pub open spec fn row(items: Seq<EntryView>, i: int, ext_base: int, order: ByteOrder) -> Seq<u8> {
    let e = items[i];
    bytes16(e.tag, order) + bytes16(e.kind, order) + bytes32(e.count, order) + (if out_of_line(e) {
        bytes32((ext_base + slot(items.take(i), e)) as u32, order)
    } else {
        inline_field(e.value)
    })
}

/// The first `n` table rows.
pub open spec fn table(items: Seq<EntryView>, n: nat, ext_base: int, order: ByteOrder) -> Seq<u8>
    decreases n,
{
    if n == 0 {
        Seq::empty()
    } else {
        table(items, (n - 1) as nat, ext_base, order) + row(items, n - 1, ext_base, order)
    }
}

/// A directory: entry count, table, next offset, out-of-line bytes.
pub open spec fn ifd_bytes(
    items: Seq<EntryView>,
    ext_base: int,
    next: u32,
    order: ByteOrder,
) -> Seq<u8> {
    bytes16(items.len() as u16, order) + table(items, items.len(), ext_base, order) + bytes32(
        next,
        order,
    ) + ext_data(items)
}

/// Whether every out-of-line value starts at a 32-bit offset, where those bytes
/// start at `ext_base`.
pub open spec fn slots_fit(items: Seq<EntryView>, ext_base: int) -> bool {
    forall|i: int|
        0 <= i < items.len() && out_of_line(#[trigger] items[i]) ==> ext_base + slot(
            items.take(i),
            items[i],
        ) <= u32::MAX
}

/// A synthesized pointer entry.
pub open spec fn pointer_entry(tag: u16, v: u32, order: ByteOrder) -> EntryView {
    EntryView {
        tag,
        kind: TIFF_LONG,
        count: 1,
        value: bytes32(v, order),
        borrowed: false,
        offset: 0,
    }
}

/// Size of a directory of `n` entries without its out-of-line bytes.
pub open spec fn table_len(n: int) -> int {
    2 + 12 * n + 4
}

/// Size of a directory that holds `entries` and `pointers` synthesized ones.
pub open spec fn block_len(entries: Seq<EntryView>, pointers: int) -> int {
    table_len(entries.len() + pointers) + ext_data(sort_by_tag(entries)).len()
}

/// A directory without pointers, placed at `off`.
pub open spec fn sub_bytes(sub: Option<Seq<EntryView>>, off: int, order: ByteOrder) -> Seq<u8> {
    match sub {
        Some(d) => ifd_bytes(sort_by_tag(d), off + table_len(d.len() as int), 0, order),
        None => Seq::empty(),
    }
}

/// The TIFF header.
pub open spec fn header_bytes(order: ByteOrder) -> Seq<u8> {
    (match order {
        ByteOrder::Little => seq![0x49u8, 0x49],
        ByteOrder::Big => seq![0x4Du8, 0x4D],
    }) + bytes16(42, order) + bytes32(8, order)
}

impl ExifView {
    /// How many pointers the first directory gets.
    pub open spec fn pointers0(self) -> int {
        (if self.exif_ifd is Some {
            1int
        } else {
            0
        }) + (if self.gps_ifd is Some {
            1int
        } else {
            0
        })
    }

    /// How many pointers the thumbnail directory gets.
    pub open spec fn pointers1(self) -> int {
        if self.thumbnail is Some {
            2
        } else {
            0
        }
    }

    /// Offset of the Exif directory.
    pub open spec fn exif_off(self) -> int {
        8 + block_len(self.ifd0, self.pointers0())
    }

    /// Offset of the GPS directory.
    pub open spec fn gps_off(self) -> int {
        self.exif_off() + match self.exif_ifd {
            Some(d) => block_len(d, 0),
            None => 0,
        }
    }

    /// Offset of the thumbnail directory.
    pub open spec fn ifd1_off(self) -> int {
        self.gps_off() + match self.gps_ifd {
            Some(d) => block_len(d, 0),
            None => 0,
        }
    }

    /// Offset of the thumbnail.
    pub open spec fn thumb_off(self) -> int {
        self.ifd1_off() + match self.ifd1 {
            Some(d) => block_len(d, self.pointers1()),
            None => 0,
        }
    }

    /// Length of the TIFF stream.
    pub open spec fn tiff_len(self) -> int {
        self.thumb_off() + match self.thumbnail {
            Some(t) => t.len() as int,
            None => 0,
        }
    }

    /// Length of the encoded blob.
    pub open spec fn blob_len(self) -> int {
        self.tiff_len() + (if self.had_prefix {
            6int
        } else {
            0
        })
    }

    /// The pointers of the first directory.
    pub open spec fn ptrs0(self) -> Seq<EntryView> {
        (if self.exif_ifd is Some {
            seq![pointer_entry(TAG_EXIF_IFD, self.exif_off() as u32, self.order)]
        } else {
            Seq::empty()
        }) + (if self.gps_ifd is Some {
            seq![pointer_entry(TAG_GPS_IFD, self.gps_off() as u32, self.order)]
        } else {
            Seq::empty()
        })
    }

    /// The pointers of the thumbnail directory.
    pub open spec fn ptrs1(self) -> Seq<EntryView> {
        match self.thumbnail {
            Some(t) => seq![
                pointer_entry(TAG_THUMB_OFFSET, self.thumb_off() as u32, self.order),
                pointer_entry(TAG_THUMB_LENGTH, t.len() as u32, self.order),
            ],
            None => Seq::empty(),
        }
    }

    /// Whether everything that is located by an offset starts at a 32-bit one,
    /// and the thumbnail has a 32-bit length. A stream of at most 4 GiB has no
    /// other.
    pub open spec fn offsets_fit(self) -> bool {
        &&& slots_fit(
            sort_by_tag(self.ifd0 + self.ptrs0()),
            8 + table_len(self.ifd0.len() + self.pointers0()),
        )
        &&& self.exif_ifd matches Some(d) ==> self.exif_off() <= u32::MAX && slots_fit(
            sort_by_tag(d),
            self.exif_off() + table_len(d.len() as int),
        )
        &&& self.gps_ifd matches Some(d) ==> self.gps_off() <= u32::MAX && slots_fit(
            sort_by_tag(d),
            self.gps_off() + table_len(d.len() as int),
        )
        &&& self.ifd1 matches Some(d) ==> self.ifd1_off() <= u32::MAX && slots_fit(
            sort_by_tag(d + self.ptrs1()),
            self.ifd1_off() + table_len(d.len() + self.pointers1()),
        )
        &&& self.thumbnail matches Some(t) ==> self.thumb_off() <= u32::MAX && t.len() <= u32::MAX
    }

    /// The first directory.
    pub open spec fn ifd0_bytes(self) -> Seq<u8> {
        ifd_bytes(
            sort_by_tag(self.ifd0 + self.ptrs0()),
            8 + table_len(self.ifd0.len() + self.pointers0()),
            if self.ifd1 is Some {
                self.ifd1_off() as u32
            } else {
                0
            },
            self.order,
        )
    }

    /// The thumbnail directory.
    pub open spec fn ifd1_bytes(self) -> Seq<u8> {
        match self.ifd1 {
            Some(d) => ifd_bytes(
                sort_by_tag(d + self.ptrs1()),
                self.ifd1_off() + table_len(d.len() + self.pointers1()),
                0,
                self.order,
            ),
            None => Seq::empty(),
        }
    }

    /// The TIFF stream.
    pub open spec fn tiff_bytes(self) -> Seq<u8> {
        header_bytes(self.order) + self.ifd0_bytes() + sub_bytes(
            self.exif_ifd,
            self.exif_off(),
            self.order,
        ) + sub_bytes(self.gps_ifd, self.gps_off(), self.order) + self.ifd1_bytes() + (
        match self.thumbnail {
            Some(t) => t,
            None => Seq::empty(),
        })
    }

    /// The encoded blob.
    pub open spec fn blob_bytes(self) -> Seq<u8> {
        (if self.had_prefix {
            exif_prefix()
        } else {
            Seq::empty()
        }) + self.tiff_bytes()
    }
}

// ── Sorting ─────────────────────────────────────────────────────────────────

/// Whether tags do not decrease.
pub open spec fn tag_sorted(s: Seq<EntryView>) -> bool {
    forall|i: int, j: int| 0 <= i <= j < s.len() ==> (#[trigger] s[i]).tag <= (#[trigger] s[j]).tag
}

/// Inserting by tag is inserting in front of the greater tags at the end.
pub proof fn lemma_insert_at(s: Seq<EntryView>, e: EntryView, pos: int)
    requires
        0 <= pos <= s.len(),
        forall|k: int| pos <= k < s.len() ==> (#[trigger] s[k]).tag > e.tag,
        pos > 0 ==> s[pos - 1].tag <= e.tag,
    ensures
        insert_by_tag(s, e) == s.insert(pos, e),
    decreases s.len(),
{
    if pos == s.len() {
        assert(s.insert(pos, e) =~= s.push(e));
    } else {
        let r = s.drop_last();
        lemma_insert_at(r, e, pos);
        assert(r.insert(pos, e).push(s.last()) =~= s.insert(pos, e));
    }
}

/// Sorting keeps the length.
pub proof fn lemma_sort_len(s: Seq<EntryView>)
    ensures
        sort_by_tag(s).len() == s.len(),
    decreases s.len(),
{
    if s.len() > 0 {
        lemma_sort_len(s.drop_last());
        lemma_insert_len(sort_by_tag(s.drop_last()), s.last());
    }
}

/// Inserting adds one entry.
pub proof fn lemma_insert_len(s: Seq<EntryView>, e: EntryView)
    ensures
        insert_by_tag(s, e).len() == s.len() + 1,
    decreases s.len(),
{
    if s.len() > 0 && s.last().tag > e.tag {
        lemma_insert_len(s.drop_last(), e);
    }
}

} // verus!
