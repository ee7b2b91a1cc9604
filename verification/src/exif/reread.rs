//! Reading back a written directory.
use super::codec::{
    bytes16, bytes32, lemma_bytes16_reads_back, lemma_bytes32_reads_back, u16_at, u32_at, ByteOrder,
};
use super::ext::{
    aliased_alike, lemma_slot_holds, lemma_slots_apart, same_entries, same_entry, similar,
};
use super::layout::{
    aliases, ext_data, ifd_bytes, inline_field, insert_by_tag, out_of_line, row, slot, slots_fit,
    sort_by_tag, table, table_len,
};
use super::model::{entries_at, entry_at, ifd_at, EntryView};
use super::provenance::consistent;
use vstd::prelude::*;

verus! {

broadcast use {super::codec::lemma_bytes16_len, super::codec::lemma_bytes32_len};

// ── Similarity under insertion, sorting and filtering ───────────────────────

/// Similar lists stay similar when like entries are appended.
pub proof fn lemma_similar_push(
    a: Seq<EntryView>,
    b: Seq<EntryView>,
    x: EntryView,
    y: EntryView,
)
    requires
        similar(a, b),
        same_entry(x, y),
        aliased_alike(a, b, x, y),
    ensures
        similar(a.push(x), b.push(y)),
{
    reveal(similar);
    let p = a.push(x);
    let q = b.push(y);
    assert forall|i: int| 0 <= i < p.len() implies same_entry(#[trigger] p[i], #[trigger] q[i]) by {
        if i < a.len() {
            assert(same_entry(a[i], b[i]));
        }
    }
    assert forall|k: int| 0 <= k < p.len() implies aliased_alike(
        p.take(k),
        q.take(k),
        #[trigger] p[k],
        #[trigger] q[k],
    ) by {
        assert(p.take(k) =~= a.take(k));
        assert(q.take(k) =~= b.take(k));
        if k < a.len() {
            assert(aliased_alike(a.take(k), b.take(k), a[k], b[k]));
        } else {
            assert(a.take(k) =~= a);
            assert(b.take(k) =~= b);
        }
    }
}

/// Appending like entries keeps what others alias.
pub proof fn lemma_alike_push(
    a: Seq<EntryView>,
    b: Seq<EntryView>,
    u: EntryView,
    v: EntryView,
    x: EntryView,
    y: EntryView,
)
    requires
        aliased_alike(a, b, x, y),
        aliases(u, x) == aliases(v, y),
    ensures
        aliased_alike(a.push(u), b.push(v), x, y),
{
    let p = a.push(u);
    let q = b.push(v);
    assert forall|i: int| 0 <= i < p.len() implies aliases(#[trigger] p[i], x) == aliases(
        #[trigger] q[i],
        y,
    ) by {
        if i < a.len() {
            assert(p[i] == a[i] && q[i] == b[i]);
        }
    }
}

/// Inserting an inline entry keeps what others alias.
pub proof fn lemma_alike_insert(
    a: Seq<EntryView>,
    b: Seq<EntryView>,
    e: EntryView,
    x: EntryView,
    y: EntryView,
)
    requires
        same_entries(a, b),
        aliased_alike(a, b, x, y),
        !out_of_line(e),
    ensures
        aliased_alike(insert_by_tag(a, e), insert_by_tag(b, e), x, y),
    decreases a.len(),
{
    if a.len() == 0 || a.last().tag <= e.tag {
        if a.len() > 0 {
            assert(same_entry(a[a.len() - 1], b[b.len() - 1]));
        }
        lemma_alike_push(a, b, e, e, x, y);
    } else {
        let n = a.len() - 1;
        assert(same_entry(a[n], b[n]));
        let p = a.drop_last();
        let q = b.drop_last();
        assert forall|i: int| 0 <= i < p.len() implies same_entry(
            #[trigger] p[i],
            #[trigger] q[i],
        ) by {
            assert(same_entry(a[i], b[i]));
        }
        assert forall|i: int| 0 <= i < p.len() implies aliases(#[trigger] p[i], x) == aliases(
            #[trigger] q[i],
            y,
        ) by {
            assert(aliases(a[i], x) == aliases(b[i], y));
        }
        lemma_alike_insert(p, q, e, x, y);
        assert(aliases(a[n], x) == aliases(b[n], y));
        lemma_alike_push(insert_by_tag(p, e), insert_by_tag(q, e), a[n], b[n], x, y);
    }
}

/// Similar lists stay similar when one inline entry is inserted into both.
pub proof fn lemma_similar_insert(a: Seq<EntryView>, b: Seq<EntryView>, e: EntryView)
    requires
        similar(a, b),
        !out_of_line(e),
    ensures
        similar(insert_by_tag(a, e), insert_by_tag(b, e)),
    decreases a.len(),
{
    reveal(similar);
    if a.len() == 0 || a.last().tag <= e.tag {
        if a.len() > 0 {
            assert(same_entry(a[a.len() - 1], b[b.len() - 1]));
        }
        lemma_similar_push(a, b, e, e);
    } else {
        let n = a.len() - 1;
        assert(same_entry(a[n], b[n]));
        assert(aliased_alike(a.take(n), b.take(n), a[n], b[n]));
        super::ext::lemma_similar_take(a, b, n);
        assert(a.take(n) =~= a.drop_last());
        assert(b.take(n) =~= b.drop_last());
        lemma_similar_insert(a.drop_last(), b.drop_last(), e);
        lemma_alike_insert(a.drop_last(), b.drop_last(), e, a[n], b[n]);
        lemma_similar_push(
            insert_by_tag(a.drop_last(), e),
            insert_by_tag(b.drop_last(), e),
            a[n],
            b[n],
        );
    }
}

/// Directories that sort alike still do with the same pointers added.
pub proof fn lemma_similar_with_pointers(
    a: Seq<EntryView>,
    b: Seq<EntryView>,
    ptrs: Seq<EntryView>,
)
    requires
        similar(sort_by_tag(a), sort_by_tag(b)),
        forall|i: int| 0 <= i < ptrs.len() ==> !out_of_line(#[trigger] ptrs[i]),
    ensures
        similar(sort_by_tag(a + ptrs), sort_by_tag(b + ptrs)),
    decreases ptrs.len(),
{
    if ptrs.len() == 0 {
        assert(a + ptrs =~= a);
        assert(b + ptrs =~= b);
    } else {
        let r = ptrs.drop_last();
        lemma_similar_with_pointers(a, b, r);
        assert((a + ptrs).drop_last() =~= a + r);
        assert((b + ptrs).drop_last() =~= b + r);
        lemma_similar_insert(sort_by_tag(a + r), sort_by_tag(b + r), ptrs.last());
    }
}

/// Whether a predicate looks at the tag only.
pub open spec fn by_tag(p: spec_fn(EntryView) -> bool) -> bool {
    forall|x: EntryView, y: EntryView| x.tag == y.tag ==> #[trigger] p(x) == #[trigger] p(y)
}

/// Filtering by tag keeps what others alias.
pub proof fn lemma_alike_filter(
    a: Seq<EntryView>,
    b: Seq<EntryView>,
    p: spec_fn(EntryView) -> bool,
    x: EntryView,
    y: EntryView,
)
    requires
        same_entries(a, b),
        aliased_alike(a, b, x, y),
        by_tag(p),
    ensures
        aliased_alike(a.filter(p), b.filter(p), x, y),
    decreases a.len(),
{
    reveal(Seq::filter);
    if a.len() > 0 {
        let n = a.len() - 1;
        assert(same_entry(a[n], b[n]));
        let c = a.drop_last();
        let d = b.drop_last();
        assert forall|i: int| 0 <= i < c.len() implies same_entry(
            #[trigger] c[i],
            #[trigger] d[i],
        ) by {
            assert(same_entry(a[i], b[i]));
        }
        assert forall|i: int| 0 <= i < c.len() implies aliases(#[trigger] c[i], x) == aliases(
            #[trigger] d[i],
            y,
        ) by {
            assert(aliases(a[i], x) == aliases(b[i], y));
        }
        lemma_alike_filter(c, d, p, x, y);
        assert(p(a[n]) == p(b[n]));
        assert(aliases(a[n], x) == aliases(b[n], y));
        lemma_alike_push(c.filter(p), d.filter(p), a[n], b[n], x, y);
    }
}

/// Similar lists stay similar when filtered by tag.
pub proof fn lemma_similar_filter(
    a: Seq<EntryView>,
    b: Seq<EntryView>,
    p: spec_fn(EntryView) -> bool,
)
    requires
        similar(a, b),
        by_tag(p),
    ensures
        similar(a.filter(p), b.filter(p)),
    decreases a.len(),
{
    reveal(similar);
    reveal(Seq::filter);
    if a.len() > 0 {
        let n = a.len() - 1;
        assert(same_entry(a[n], b[n]));
        assert(aliased_alike(a.take(n), b.take(n), a[n], b[n]));
        super::ext::lemma_similar_take(a, b, n);
        assert(a.take(n) =~= a.drop_last());
        assert(b.take(n) =~= b.drop_last());
        lemma_similar_filter(a.drop_last(), b.drop_last(), p);
        lemma_alike_filter(a.drop_last(), b.drop_last(), p, a[n], b[n]);
        assert(p(a[n]) == p(b[n]));
        lemma_similar_push(a.drop_last().filter(p), b.drop_last().filter(p), a[n], b[n]);
    }
}

/// Every list is similar to itself.
pub proof fn lemma_similar_refl(a: Seq<EntryView>)
    ensures
        similar(a, a),
{
    reveal(similar);
    assert forall|k: int| 0 <= k < a.len() implies aliased_alike(
        a.take(k),
        a.take(k),
        #[trigger] a[k],
        #[trigger] a[k],
    ) by {}
}

// ── A directory as it is read back ──────────────────────────────────────────

/// `items[i]` as read back from a directory written at `off`.
pub open spec fn placed(items: Seq<EntryView>, i: int, off: int) -> EntryView {
    EntryView {
        borrowed: true,
        offset: (if out_of_line(items[i]) {
            off + table_len(items.len() as int) + slot(items.take(i), items[i])
        } else {
            off + 2 + 12 * i + 8
        }) as nat,
        ..items[i]
    }
}

/// The entries read back from a directory written at `off`.
pub open spec fn placed_all(items: Seq<EntryView>, off: int) -> Seq<EntryView> {
    Seq::new(items.len(), |i: int| placed(items, i, off))
}

/// What is read back is similar to what was written.
pub proof fn lemma_placed_similar(items: Seq<EntryView>, off: int)
    requires
        off >= 0,
    ensures
        similar(items, placed_all(items, off)),
{
    reveal(similar);
    let q = placed_all(items, off);
    assert forall|k: int| 0 <= k < items.len() implies aliased_alike(
        items.take(k),
        q.take(k),
        #[trigger] items[k],
        #[trigger] q[k],
    ) by {
        assert forall|i: int| 0 <= i < k implies aliases(
            #[trigger] items.take(k)[i],
            items[k],
        ) == aliases(#[trigger] q.take(k)[i], q[k]) by {
            assert(items.take(k)[i] == items[i]);
            assert(q.take(k)[i] == placed(items, i, off));
            assert(q[k] == placed(items, k, off));
            if out_of_line(items[i]) && items[i].value.len() == items[k].value.len() {
                lemma_slots_apart(items, i, k);
            }
        }
    }
}

/// A table row takes twelve bytes.
pub proof fn lemma_row_len(items: Seq<EntryView>, i: int, ext_base: int, order: ByteOrder)
    ensures
        row(items, i, ext_base, order).len() == 12,
{
}

/// A table of `n` rows: its length, and where each row is.
pub proof fn lemma_table_rows(
    items: Seq<EntryView>,
    n: nat,
    ext_base: int,
    order: ByteOrder,
    i: int,
)
    ensures
        table(items, n, ext_base, order).len() == 12 * n,
        0 <= i < n ==> table(items, n, ext_base, order).subrange(12 * i, 12 * i + 12) == row(
            items,
            i,
            ext_base,
            order,
        ),
    decreases n,
{
    if n > 0 {
        lemma_table_rows(items, (n - 1) as nat, ext_base, order, i);
        lemma_row_len(items, n - 1, ext_base, order);
        let t = table(items, (n - 1) as nat, ext_base, order);
        let r = row(items, n - 1, ext_base, order);
        if 0 <= i < n - 1 {
            assert((t + r).subrange(12 * i, 12 * i + 12) =~= t.subrange(12 * i, 12 * i + 12));
        } else if i == n - 1 {
            assert((t + r).subrange(12 * i, 12 * i + 12) =~= r);
        }
    }
}

/// A directory's length.
pub proof fn lemma_ifd_len(items: Seq<EntryView>, ext_base: int, next: u32, order: ByteOrder)
    ensures
        ifd_bytes(items, ext_base, next, order).len() == table_len(items.len() as int) + ext_data(
            items,
        ).len(),
{
    lemma_table_rows(items, items.len(), ext_base, order, 0);
}

/// Whether `d` is found in `s` at `off`.
pub open spec fn found_at(s: Seq<u8>, off: int, d: Seq<u8>) -> bool {
    0 <= off && off + d.len() <= s.len() && s.subrange(off, off + d.len()) == d
}

/// A part of what is found is found where the part is.
pub proof fn lemma_found_part(s: Seq<u8>, off: int, d: Seq<u8>, i: int, j: int)
    requires
        found_at(s, off, d),
        0 <= i <= j <= d.len(),
    ensures
        found_at(s, off + i, d.subrange(i, j)),
{
    assert forall|k: int| 0 <= k < j - i implies s.subrange(off + i, off + j)[k] == d.subrange(
        i,
        j,
    )[k] by {
        assert(s.subrange(off, off + d.len())[i + k] == d[i + k]);
    }
    assert(s.subrange(off + i, off + j) =~= d.subrange(i, j));
}

/// What is found gives its bytes.
pub proof fn lemma_found_byte(s: Seq<u8>, off: int, d: Seq<u8>, k: int)
    requires
        found_at(s, off, d),
        0 <= k < d.len(),
    ensures
        s[off + k] == d[k],
{
    assert(s.subrange(off, off + d.len())[k] == s[off + k]);
}

/// A written 16-bit value is read back where it is found.
pub proof fn lemma_found_u16(s: Seq<u8>, off: int, v: u16, order: ByteOrder)
    requires
        found_at(s, off, bytes16(v, order)),
    ensures
        u16_at(s, off, order) == v,
{
    lemma_bytes16_reads_back(v, order);
    reveal(u16_at);
    lemma_found_byte(s, off, bytes16(v, order), 0);
    lemma_found_byte(s, off, bytes16(v, order), 1);
}

/// A written 32-bit value is read back where it is found.
pub proof fn lemma_found_u32(s: Seq<u8>, off: int, v: u32, order: ByteOrder)
    requires
        found_at(s, off, bytes32(v, order)),
    ensures
        u32_at(s, off, order) == v,
{
    lemma_bytes32_reads_back(v, order);
    reveal(u32_at);
    lemma_found_byte(s, off, bytes32(v, order), 0);
    lemma_found_byte(s, off, bytes32(v, order), 1);
    lemma_found_byte(s, off, bytes32(v, order), 2);
    lemma_found_byte(s, off, bytes32(v, order), 3);
}

/// A row is read back as the entry it was written for.
pub proof fn lemma_row_reads_back(
    tiff: Seq<u8>,
    items: Seq<EntryView>,
    i: int,
    off: int,
    order: ByteOrder,
)
    requires
        0 <= off,
        0 <= i < items.len(),
        consistent(items[i]),
        slots_fit(items, off + table_len(items.len() as int)),
        found_at(
            tiff,
            off + 2 + 12 * i,
            row(items, i, off + table_len(items.len() as int), order),
        ),
        found_at(tiff, off + table_len(items.len() as int), ext_data(items)),
    ensures
        entry_at(tiff, off + 2 + 12 * i, order) == Some(placed(items, i, off)),
{
    let e = items[i];
    let at = off + 2 + 12 * i;
    let ext_base = off + table_len(items.len() as int);
    let r = row(items, i, ext_base, order);
    lemma_row_len(items, i, ext_base, order);
    lemma_found_part(tiff, at, r, 0, 2);
    assert(r.subrange(0, 2) =~= bytes16(e.tag, order));
    lemma_found_u16(tiff, at, e.tag, order);
    lemma_found_part(tiff, at, r, 2, 4);
    assert(r.subrange(2, 4) =~= bytes16(e.kind, order));
    lemma_found_u16(tiff, at + 2, e.kind, order);
    lemma_found_part(tiff, at, r, 4, 8);
    assert(r.subrange(4, 8) =~= bytes32(e.count, order));
    lemma_found_u32(tiff, at + 4, e.count, order);
    lemma_found_part(tiff, at, r, 8, 12);
    let n = e.value.len() as int;
    if out_of_line(e) {
        let s = slot(items.take(i), e) as int;
        lemma_slot_holds(items, i);
        assert(r.subrange(8, 12) =~= bytes32((ext_base + s) as u32, order));
        lemma_found_u32(tiff, at + 8, (ext_base + s) as u32, order);
        assert(ext_base + s <= u32::MAX);
        lemma_found_part(tiff, ext_base, ext_data(items), s, s + n);
        assert(tiff.subrange(ext_base + s, ext_base + s + n) == e.value);
    } else {
        assert(r.subrange(8, 12) =~= inline_field(e.value));
        lemma_found_part(tiff, at + 8, inline_field(e.value), 0, n);
        assert(inline_field(e.value).subrange(0, n) =~= e.value);
    }
}

/// A table is read back as the entries it was written for.
pub proof fn lemma_table_reads_back(
    tiff: Seq<u8>,
    items: Seq<EntryView>,
    n: nat,
    off: int,
    order: ByteOrder,
)
    requires
        0 <= off,
        n <= items.len(),
        forall|i: int| 0 <= i < items.len() ==> consistent(#[trigger] items[i]),
        slots_fit(items, off + table_len(items.len() as int)),
        found_at(
            tiff,
            off + 2,
            table(items, items.len(), off + table_len(items.len() as int), order),
        ),
        found_at(tiff, off + table_len(items.len() as int), ext_data(items)),
    ensures
        entries_at(tiff, off + 2, n, order) == placed_all(items, off).take(n as int),
    decreases n,
{
    if n == 0 {
        assert(placed_all(items, off).take(0) =~= Seq::<EntryView>::empty());
    } else {
        let i = n - 1;
        let ext_base = off + table_len(items.len() as int);
        lemma_table_reads_back(tiff, items, i as nat, off, order);
        lemma_table_rows(items, items.len(), ext_base, order, i);
        lemma_found_part(
            tiff,
            off + 2,
            table(items, items.len(), ext_base, order),
            12 * i,
            12 * i + 12,
        );
        lemma_row_reads_back(tiff, items, i, off, order);
        assert(placed_all(items, off).take(n as int) =~= placed_all(items, off).take(i).push(
            placed(items, i, off),
        ));
    }
}

/// A directory is read back as the entries it was written for.
pub proof fn lemma_ifd_reads_back(
    tiff: Seq<u8>,
    items: Seq<EntryView>,
    off: int,
    next: u32,
    order: ByteOrder,
)
    requires
        0 <= off,
        items.len() <= 1000,
        forall|i: int| 0 <= i < items.len() ==> consistent(#[trigger] items[i]),
        slots_fit(items, off + table_len(items.len() as int)),
        found_at(
            tiff,
            off,
            ifd_bytes(items, off + table_len(items.len() as int), next, order),
        ),
    ensures
        u16_at(tiff, off, order) == items.len(),
        ifd_at(tiff, off, order) == Some((placed_all(items, off), next)),
{
    let n = items.len() as int;
    let ext_base = off + table_len(n);
    let d = ifd_bytes(items, ext_base, next, order);
    lemma_ifd_len(items, ext_base, next, order);
    lemma_table_rows(items, items.len(), ext_base, order, 0);
    let t = table(items, items.len(), ext_base, order);
    lemma_found_part(tiff, off, d, 0, 2);
    assert(d.subrange(0, 2) =~= bytes16(items.len() as u16, order));
    lemma_found_u16(tiff, off, items.len() as u16, order);
    lemma_found_part(tiff, off, d, 2, 2 + 12 * n);
    assert(d.subrange(2, 2 + 12 * n) =~= t);
    lemma_found_part(tiff, off, d, 2 + 12 * n, 6 + 12 * n);
    assert(d.subrange(2 + 12 * n, 6 + 12 * n) =~= bytes32(next, order));
    lemma_found_u32(tiff, off + 2 + 12 * n, next, order);
    lemma_found_part(tiff, off, d, 6 + 12 * n, d.len() as int);
    assert(d.subrange(6 + 12 * n, d.len() as int) =~= ext_data(items));
    lemma_table_reads_back(tiff, items, items.len(), off, order);
    assert(placed_all(items, off).take(n) =~= placed_all(items, off));
}

} // verus!
