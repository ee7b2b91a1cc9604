//! Serializing an EXIF tree.
use super::codec::{put16, put32, ByteOrder};
use super::layout::{aliases, ext_data, out_of_line, padded, sort_by_tag};
use super::model::EntryView;
use super::tags::{TAG_EXIF_IFD, TAG_GPS_IFD, TAG_THUMB_LENGTH, TAG_THUMB_OFFSET, TIFF_LONG};
use super::tree::{views, Entry, Exif};
use crate::bytes::same_bytes;
use std::borrow::Cow;
use vstd::prelude::*;

verus! {

broadcast use {super::codec::lemma_bytes16_len, super::codec::lemma_bytes32_len};

/// The models of a list of borrowed entries.
pub open spec fn ref_views(entries: Seq<&Entry<'_>>) -> Seq<EntryView> {
    entries.map_values(|e: &Entry<'_>| e@)
}

/// `n` as a machine size, if it is one.
pub open spec fn as_size(n: int) -> Option<usize> {
    if 0 <= n <= usize::MAX {
        Some(n as usize)
    } else {
        None
    }
}

/// Append a slice.
pub fn append(out: &mut Vec<u8>, s: &[u8])
    ensures
        final(out)@ == old(out)@ + s@,
{
    let ghost before = out@;
    out.extend_from_slice(s);
    assert(out@ =~= before + s@);
}

/// The out-of-line bytes of a directory's first entries come first.
pub proof fn lemma_ext_prefix(items: Seq<EntryView>, i: int)
    requires
        0 <= i <= items.len(),
    ensures
        ext_data(items.take(i)).len() <= ext_data(items).len(),
        ext_data(items).take(ext_data(items.take(i)).len() as int) == ext_data(items.take(i)),
    decreases items.len(),
{
    if i == items.len() {
        assert(items.take(i) =~= items);
        assert(ext_data(items).take(ext_data(items).len() as int) =~= ext_data(items));
    } else {
        let before = items.drop_last();
        lemma_ext_prefix(before, i);
        assert(before.take(i) =~= items.take(i));
        let n = ext_data(items.take(i)).len() as int;
        assert(ext_data(items).take(n) =~= ext_data(before).take(n));
    }
}

/// The slot of a value is where its first alias put it, or the end.
pub proof fn lemma_slot_first(before: Seq<EntryView>, e: EntryView, j: int)
    requires
        0 <= j <= before.len(),
        forall|k: int| 0 <= k < j ==> !aliases(#[trigger] before[k], e),
        j < before.len() ==> aliases(before[j], e),
    ensures
        super::layout::slot(before, e) == ext_data(before.take(j)).len(),
        super::layout::has_alias(before, e) <==> j < before.len(),
    decreases before.len(),
{
    if before.len() == 0 {
        assert(before.take(j) =~= before);
    } else {
        let p = before.drop_last();
        if j < p.len() {
            lemma_slot_first(p, e, j);
            assert(p.take(j) =~= before.take(j));
            assert(p[j] == before[j]);
        } else {
            assert(!super::layout::has_alias(p, e)) by {
                if super::layout::has_alias(p, e) {
                    let k = choose|k: int| 0 <= k < p.len() && aliases(#[trigger] p[k], e);
                    assert(before[k] == p[k]);
                }
            }
            if j == p.len() {
                assert(before.take(j) =~= p);
                assert(before[j] == before.last());
            } else {
                assert(before.take(j) =~= before);
            }
        }
    }
}

/// Whether two entries' values are the same window of the parsed source.
fn same_window(a: &Entry<'_>, b: &Entry<'_>) -> (r: bool)
    ensures
        r == aliases(a@, b@),
{
    match (&a.value, &b.value) {
        (Cow::Borrowed(x), Cow::Borrowed(y)) => x.len() > 4 && a.value_offset == b.value_offset
            && same_bytes(x, y),
        _ => false,
    }
}

/// The first entry before `i` with the same window as `items[i]`, or `i`.
fn first_alias(items: &Vec<&Entry<'_>>, i: usize) -> (r: usize)
    requires
        i < items@.len(),
    ensures
        r <= i,
        forall|k: int| 0 <= k < r ==> !aliases(#[trigger] ref_views(items@)[k], items@[i as int]@),
        r < i ==> aliases(ref_views(items@)[r as int], items@[i as int]@),
{
    let mut j: usize = 0;
    while j < i
        invariant
            j <= i < items@.len(),
            forall|k: int|
                0 <= k < j ==> !aliases(#[trigger] ref_views(items@)[k], items@[i as int]@),
        decreases i - j,
    {
        if same_window(items[j], items[i]) {
            return j;
        }
        j = j + 1;
    }
    j
}

/// Append the bytes of `v`, filled up to an even count.
fn append_padded(out: &mut Vec<u8>, v: &[u8])
    ensures
        final(out)@ == old(out)@ + padded(v@),
{
    append(out, v);
    if v.len() % 2 == 1 {
        out.push(0);
        assert(out@ =~= old(out)@ + padded(v@));
    }
}

/// Append a value of at most four bytes as a row's last field.
fn append_inline(out: &mut Vec<u8>, v: &[u8])
    requires
        v@.len() <= 4,
    ensures
        final(out)@ == old(out)@ + super::layout::inline_field(v@),
{
    let ghost field = super::layout::inline_field(v@);
    assert(old(out)@ + field.take(0) =~= old(out)@);
    let mut i: usize = 0;
    while i < 4
        invariant
            i <= 4,
            v@.len() <= 4,
            field == super::layout::inline_field(v@),
            out@ == old(out)@ + field.take(i as int),
        decreases 4 - i,
    {
        let b: u8 = if i < v.len() {
            v[i]
        } else {
            0
        };
        assert(field[i as int] == b);
        out.push(b);
        assert(out@ =~= old(out)@ + field.take(i + 1));
        i = i + 1;
    }
    assert(field.take(4) =~= field);
}

/// Write one directory.
fn write_ifd(out: &mut Vec<u8>, items: &Vec<&Entry<'_>>, ext_base: usize, next: u32, order: ByteOrder)
    requires
        ext_base + ext_data(ref_views(items@)).len() <= usize::MAX,
    ensures
        final(out)@ == old(out)@ + super::layout::ifd_bytes(
            ref_views(items@),
            ext_base as int,
            next,
            order,
        ),
{
    let ghost all = ref_views(items@);
    let ghost head = old(out)@ + super::codec::bytes16(all.len() as u16, order);
    put16(out, items.len() as u16, order);
    let mut ext: Vec<u8> = Vec::new();
    let mut starts: Vec<usize> = Vec::new();
    let mut i: usize = 0;
    assert(all.take(0) =~= Seq::<EntryView>::empty());
    assert(out@ =~= head + super::layout::table(all, 0, ext_base as int, order));
    while i < items.len()
        invariant
            i <= items@.len(),
            all == ref_views(items@),
            ext_base + ext_data(all).len() <= usize::MAX,
            ext@ == ext_data(all.take(i as int)),
            starts@.len() == i,
            forall|j: int|
                0 <= j < i ==> (#[trigger] starts@[j]) == ext_data(all.take(j)).len(),
            out@ == head + super::layout::table(all, i as nat, ext_base as int, order),
        decreases items@.len() - i,
    {
        let ghost before = out@;
        let e: &Entry<'_> = items[i];
        let ghost prior = all.take(i as int);
        proof {
            lemma_ext_prefix(all, i as int);
            lemma_ext_prefix(all, i + 1);
            assert(all.take(i + 1).drop_last() =~= prior);
            assert(all.take(i + 1).last() == e@);
            assert(all[i as int] == e@);
        }
        starts.push(ext.len());
        put16(out, e.tag, order);
        put16(out, e.kind, order);
        put32(out, e.count, order);
        let value: &[u8] = e.bytes();
        if value.len() <= 4 {
            append_inline(out, value);
        } else {
            let j: usize = first_alias(items, i);
            proof {
                assert forall|k: int| 0 <= k < j implies !aliases(#[trigger] prior[k], e@) by {
                    assert(prior[k] == all[k]);
                }
                if j < i {
                    assert(prior[j as int] == all[j as int]);
                }
                lemma_slot_first(prior, e@, j as int);
                assert(prior.take(j as int) =~= all.take(j as int));
                lemma_ext_prefix(all, j as int);
            }
            put32(out, (ext_base + starts[j]) as u32, order);
            if j == i {
                append_padded(&mut ext, value);
            }
        }
        assert(out@ =~= before + super::layout::row(all, i as int, ext_base as int, order));
        i = i + 1;
        assert(out@ =~= head + super::layout::table(all, i as nat, ext_base as int, order));
    }
    assert(all.take(i as int) =~= all);
    put32(out, next, order);
    append(out, ext.as_slice());
    assert(out@ =~= old(out)@ + super::layout::ifd_bytes(all, ext_base as int, next, order));
}

/// Where in `items` an entry with `tag` goes.
fn insertion_point(items: &Vec<&Entry<'_>>, tag: u16) -> (pos: usize)
    ensures
        pos <= items@.len(),
        forall|k: int| pos <= k < items@.len() ==> (#[trigger] ref_views(items@)[k]).tag > tag,
        pos > 0 ==> ref_views(items@)[pos - 1].tag <= tag,
{
    let mut pos: usize = items.len();
    while pos > 0
        invariant
            pos <= items@.len(),
            forall|k: int| pos <= k < items@.len() ==> (#[trigger] ref_views(items@)[k]).tag > tag,
        decreases pos,
    {
        if items[pos - 1].tag <= tag {
            assert(ref_views(items@)[pos - 1].tag <= tag);
            return pos;
        }
        pos = pos - 1;
    }
    pos
}

/// Sort the entries of `entries` into `items`.
fn sort_into<'b, 'a>(
    items: &mut Vec<&'b Entry<'a>>,
    entries: &'b Vec<Entry<'a>>,
    Ghost(prior): Ghost<Seq<EntryView>>,
)
    requires
        ref_views(old(items)@) == sort_by_tag(prior),
    ensures
        ref_views(final(items)@) == sort_by_tag(prior + views(entries@)),
{
    let ghost es = views(entries@);
    assert(prior + es.take(0) =~= prior);
    let mut i: usize = 0;
    while i < entries.len()
        invariant
            i <= entries@.len(),
            es == views(entries@),
            ref_views(items@) == sort_by_tag(prior + es.take(i as int)),
        decreases entries@.len() - i,
    {
        let e: &'b Entry<'a> = &entries[i];
        let pos: usize = insertion_point(items, e.tag);
        let ghost before = items@;
        items.insert(pos, e);
        proof {
            super::layout::lemma_insert_at(ref_views(before), e@, pos as int);
            assert(ref_views(items@) =~= ref_views(before).insert(pos as int, e@));
            let t = prior + es.take(i + 1);
            assert(t.drop_last() =~= prior + es.take(i as int));
            assert(t.last() == e@);
        }
        i = i + 1;
    }
    assert(es.take(i as int) =~= es);
}

/// The entries and pointers of a directory in the order they are written.
fn sorted_items<'b, 'a>(entries: &'b Vec<Entry<'a>>, ptrs: &'b Vec<Entry<'a>>) -> (r: Vec<
    &'b Entry<'a>,
>)
    ensures
        ref_views(r@) == sort_by_tag(views(entries@) + views(ptrs@)),
{
    let mut items: Vec<&'b Entry<'a>> = Vec::new();
    assert(ref_views(items@) =~= Seq::<EntryView>::empty());
    sort_into(&mut items, entries, Ghost(Seq::empty()));
    assert(Seq::<EntryView>::empty() + views(entries@) =~= views(entries@));
    sort_into(&mut items, ptrs, Ghost(views(entries@)));
    items
}

/// `a + b`, if both are sizes and so is the sum.
fn plus(a: Option<usize>, b: usize) -> (r: Option<usize>)
    ensures
        forall|x: int| x >= 0 && a == #[trigger] as_size(x) ==> r == as_size(x + b),
{
    match a {
        Some(n) => n.checked_add(b),
        None => None,
    }
}

/// Size of the out-of-line bytes of a sorted directory.
fn ext_size(items: &Vec<&Entry<'_>>) -> (r: Option<usize>)
    ensures
        r == as_size(ext_data(ref_views(items@)).len() as int),
{
    let ghost all = ref_views(items@);
    let mut total: Option<usize> = Some(0);
    let mut i: usize = 0;
    assert(all.take(0) =~= Seq::<EntryView>::empty());
    while i < items.len()
        invariant
            i <= items@.len(),
            all == ref_views(items@),
            total == as_size(ext_data(all.take(i as int)).len() as int),
        decreases items@.len() - i,
    {
        let e: &Entry<'_> = items[i];
        let ghost prior = all.take(i as int);
        proof {
            assert(all.take(i + 1).drop_last() =~= prior);
            assert(all.take(i + 1).last() == e@);
        }
        let n: usize = e.bytes().len();
        if n > 4 {
            let j: usize = first_alias(items, i);
            proof {
                assert forall|k: int| 0 <= k < j implies !aliases(#[trigger] prior[k], e@) by {
                    assert(prior[k] == all[k]);
                }
                if j < i {
                    assert(prior[j as int] == all[j as int]);
                }
                lemma_slot_first(prior, e@, j as int);
            }
            if j == i {
                let ghost x = ext_data(prior).len() as int;
                total = plus(total, n);
                assert(total == as_size(x + n));
                if n % 2 == 1 {
                    total = plus(total, 1);
                    assert(total == as_size(x + n + 1));
                }
                assert(ext_data(all.take(i + 1)).len() == x + padded(e@.value).len());
            }
        }
        i = i + 1;
    }
    assert(all.take(i as int) =~= all);
    total
}

/// Size of a directory with `pointers` synthesized entries.
fn block_size(entries: &Vec<Entry<'_>>, pointers: usize) -> (r: Option<usize>)
    requires
        pointers <= 2,
    ensures
        r == as_size(super::layout::block_len(views(entries@), pointers as int)),
{
    let none: Vec<Entry<'_>> = Vec::new();
    let items: Vec<&Entry<'_>> = sorted_items(entries, &none);
    proof {
        assert(views(entries@) + views(none@) =~= views(entries@));
    }
    let ext: Option<usize> = ext_size(&items);
    match entries.len().checked_mul(12) {
        Some(t) => {
            let table: Option<usize> = plus(Some(t), 12 * pointers + 6);
            assert(Some(t) == as_size(12 * (entries@.len() as int)));
            match (table, ext) {
                (Some(a), Some(b)) => a.checked_add(b),
                _ => None,
            }
        },
        None => None,
    }
}

/// A synthesized pointer entry.
fn pointer<'a>(tag: u16, v: u32, order: ByteOrder) -> (e: Entry<'a>)
    ensures
        e@ == super::layout::pointer_entry(tag, v, order),
{
    let mut value: Vec<u8> = Vec::new();
    put32(&mut value, v, order);
    assert(value@ =~= super::codec::bytes32(v, order));
    Entry { tag, kind: TIFF_LONG, count: 1, value: Cow::Owned(value), value_offset: 0 }
}

impl<'a> Exif<'a> {
    /// Length of [`to_bytes`](Self::to_bytes)' output, computed without making
    /// it. `None` if it is not a machine size.
    pub fn checked_serialized_len(&self) -> (r: Option<usize>)
        ensures
            r == as_size(self@.blob_len()),
    {
        let nptr0: usize = (if self.exif_ifd.is_some() {
            1usize
        } else {
            0
        }) + (if self.gps_ifd.is_some() {
            1usize
        } else {
            0
        });
        let nptr1: usize = if self.thumbnail.is_some() {
            2
        } else {
            0
        };
        let ghost v = self@;
        let mut total: Option<usize> = sum(Some(8), block_size(&self.ifd0, nptr0));
        assert(total == as_size(v.exif_off())) by {
            assert(Some(8usize) == as_size(8));
        }
        if let Some(d) = &self.exif_ifd {
            total = sum(total, block_size(d, 0));
        }
        assert(total == as_size(v.gps_off()));
        if let Some(d) = &self.gps_ifd {
            total = sum(total, block_size(d, 0));
        }
        assert(total == as_size(v.ifd1_off()));
        if let Some(d) = &self.ifd1 {
            total = sum(total, block_size(d, nptr1));
        }
        assert(total == as_size(v.thumb_off()));
        if let Some(t) = self.thumbnail {
            total = plus(total, t.len());
        }
        assert(total == as_size(v.tiff_len()));
        if self.had_prefix {
            total = plus(total, 6);
        }
        total
    }
}

/// `a + b`, if both are sizes and so is the sum.
fn sum(a: Option<usize>, b: Option<usize>) -> (r: Option<usize>)
    ensures
        forall|x: int, y: int|
            x >= 0 && y >= 0 && a == #[trigger] as_size(x) && b == #[trigger] as_size(y) ==> r
                == as_size(x + y),
{
    match b {
        Some(n) => plus(a, n),
        None => None,
    }
}

/// Entries and pointers of a directory, written at `off`.
fn write_block<'a>(
    out: &mut Vec<u8>,
    entries: &Vec<Entry<'a>>,
    ptrs: &Vec<Entry<'a>>,
    off: usize,
    next: u32,
    order: ByteOrder,
)
    requires
        ptrs@.len() <= 2,
        forall|i: int| 0 <= i < ptrs@.len() ==> !out_of_line(#[trigger] views(ptrs@)[i]),
        off + super::layout::block_len(views(entries@), ptrs@.len() as int) <= usize::MAX,
    ensures
        final(out)@ == old(out)@ + super::layout::ifd_bytes(
            sort_by_tag(views(entries@) + views(ptrs@)),
            off + super::layout::table_len((entries@.len() + ptrs@.len()) as int),
            next,
            order,
        ),
{
    let items: Vec<&Entry<'_>> = sorted_items(entries, ptrs);
    proof {
        super::sorting::lemma_ext_with_pointers(views(entries@), views(ptrs@));
    }
    let n: usize = entries.len();
    let base: usize = off + 2 + 12 * (n + ptrs.len()) + 4;
    write_ifd(out, &items, base, next, order);
}

/// Write a directory without pointers, if there is one.
fn write_sub<'a>(out: &mut Vec<u8>, sub: &Option<Vec<Entry<'a>>>, off: usize, order: ByteOrder)
    requires
        sub matches Some(d) ==> off + super::layout::block_len(views(d@), 0) <= usize::MAX,
    ensures
        final(out)@ == old(out)@ + super::layout::sub_bytes(
            super::tree::opt_views(*sub),
            off as int,
            order,
        ),
{
    match sub {
        Some(d) => {
            let none: Vec<Entry<'a>> = Vec::new();
            assert(views(d@) + views(none@) =~= views(d@));
            write_block(out, d, &none, off, 0, order);
        },
        None => {
            assert(out@ =~= old(out)@ + Seq::<u8>::empty());
        },
    }
}

/// Write the TIFF header.
fn write_header(out: &mut Vec<u8>, order: ByteOrder)
    ensures
        final(out)@ == old(out)@ + super::layout::header_bytes(order),
{
    match order {
        ByteOrder::Little => {
            out.push(0x49);
            out.push(0x49);
        },
        ByteOrder::Big => {
            out.push(0x4D);
            out.push(0x4D);
        },
    }
    put16(out, 42, order);
    put32(out, 8, order);
    assert(out@ =~= old(out)@ + super::layout::header_bytes(order));
}

/// Write the `Exif\0\0` marker.
fn write_prefix(out: &mut Vec<u8>)
    ensures
        final(out)@ == old(out)@ + super::model::exif_prefix(),
{
    let prefix: [u8; 6] = [0x45, 0x78, 0x69, 0x66, 0, 0];
    append(out, &prefix);
    assert(prefix@ =~= super::model::exif_prefix());
}

/// Regrouping a concatenation.
proof fn lemma_regroup(
    h: Seq<u8>,
    a: Seq<u8>,
    b: Seq<u8>,
    c: Seq<u8>,
    d: Seq<u8>,
    e: Seq<u8>,
    f: Seq<u8>,
)
    ensures
        h + a + b + c + d + e + f == h + (a + b + c + d + e + f),
{
    assert(h + a + b + c + d + e + f =~= h + (a + b + c + d + e + f));
}

/// Where the parts behind the first directory start.
struct Offsets {
    exif: usize,
    gps: usize,
    ifd1: usize,
    thumb: usize,
}

impl<'a> Exif<'a> {
    /// Length of [`to_bytes`](Self::to_bytes)' output, computed without making it.
    pub fn serialized_len(&self) -> (n: usize)
        requires
            self@.blob_len() <= usize::MAX,
        ensures
            n == self@.blob_len(),
    {
        self.checked_serialized_len().unwrap()
    }

    fn offsets(&self) -> (r: Offsets)
        requires
            self@.blob_len() <= usize::MAX,
        ensures
            r.exif == self@.exif_off(),
            r.gps == self@.gps_off(),
            r.ifd1 == self@.ifd1_off(),
            r.thumb == self@.thumb_off(),
    {
        let nptr0: usize = (if self.exif_ifd.is_some() {
            1usize
        } else {
            0
        }) + (if self.gps_ifd.is_some() {
            1usize
        } else {
            0
        });
        let nptr1: usize = if self.thumbnail.is_some() {
            2
        } else {
            0
        };
        let exif: usize = 8 + block_size(&self.ifd0, nptr0).unwrap();
        let gps: usize = match &self.exif_ifd {
            Some(d) => exif + block_size(d, 0).unwrap(),
            None => exif,
        };
        let ifd1: usize = match &self.gps_ifd {
            Some(d) => gps + block_size(d, 0).unwrap(),
            None => gps,
        };
        let thumb: usize = match &self.ifd1 {
            Some(d) => ifd1 + block_size(d, nptr1).unwrap(),
            None => ifd1,
        };
        Offsets { exif, gps, ifd1, thumb }
    }

    fn write_ifd0(&self, out: &mut Vec<u8>, at: &Offsets)
        requires
            self@.blob_len() <= usize::MAX,
            at.exif == self@.exif_off(),
            at.gps == self@.gps_off(),
            at.ifd1 == self@.ifd1_off(),
        ensures
            final(out)@ == old(out)@ + self@.ifd0_bytes(),
    {
        let mut ptrs: Vec<Entry<'a>> = Vec::new();
        if self.exif_ifd.is_some() {
            ptrs.push(pointer(TAG_EXIF_IFD, at.exif as u32, self.order));
        }
        if self.gps_ifd.is_some() {
            ptrs.push(pointer(TAG_GPS_IFD, at.gps as u32, self.order));
        }
        assert(views(ptrs@) =~= self@.ptrs0());
        let next: u32 = if self.ifd1.is_some() {
            at.ifd1 as u32
        } else {
            0
        };
        write_block(out, &self.ifd0, &ptrs, 8, next, self.order);
    }

    fn write_ifd1(&self, out: &mut Vec<u8>, at: &Offsets)
        requires
            self@.blob_len() <= usize::MAX,
            at.ifd1 == self@.ifd1_off(),
            at.thumb == self@.thumb_off(),
        ensures
            final(out)@ == old(out)@ + self@.ifd1_bytes(),
    {
        match &self.ifd1 {
            Some(d) => {
                let mut ptrs: Vec<Entry<'a>> = Vec::new();
                if let Some(t) = self.thumbnail {
                    ptrs.push(pointer(TAG_THUMB_OFFSET, at.thumb as u32, self.order));
                    ptrs.push(pointer(TAG_THUMB_LENGTH, t.len() as u32, self.order));
                }
                assert(views(ptrs@) =~= self@.ptrs1());
                write_block(out, d, &ptrs, at.ifd1, 0, self.order);
            },
            None => {
                assert(out@ =~= old(out)@ + Seq::<u8>::empty());
            },
        }
    }

    /// Serialize to a TIFF blob, recomputing every offset. Byte order and
    /// framing are those of the source.
    pub fn to_bytes(&self) -> (out: Vec<u8>)
        requires
            self@.blob_len() <= usize::MAX,
        ensures
            out@ == self@.blob_bytes(),
    {
        let mut out: Vec<u8> = Vec::with_capacity(self.serialized_len());
        if self.had_prefix {
            write_prefix(&mut out);
        }
        let at: Offsets = self.offsets();
        let ghost head = out@;
        write_header(&mut out, self.order);
        self.write_ifd0(&mut out, &at);
        write_sub(&mut out, &self.exif_ifd, at.exif, self.order);
        write_sub(&mut out, &self.gps_ifd, at.gps, self.order);
        self.write_ifd1(&mut out, &at);
        let ghost body = out@;
        if let Some(t) = self.thumbnail {
            append(&mut out, t);
        }
        proof {
            let v = self@;
            let tail = match v.thumbnail {
                Some(t) => t,
                None => Seq::empty(),
            };
            assert(body + Seq::<u8>::empty() =~= body);
            assert(head =~= (if v.had_prefix {
                super::model::exif_prefix()
            } else {
                Seq::empty()
            }));
            lemma_regroup(
                head,
                super::layout::header_bytes(v.order),
                v.ifd0_bytes(),
                super::layout::sub_bytes(v.exif_ifd, v.exif_off(), v.order),
                super::layout::sub_bytes(v.gps_ifd, v.gps_off(), v.order),
                v.ifd1_bytes(),
                tail,
            );
        }
        out
    }
}

} // verus!
