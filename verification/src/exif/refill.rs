//! Replacing the first bytes of a value, and of the values that share its
//! bytes.
use super::codec::{bytes16, bytes32, ByteOrder};
use super::ext::{first_alias_of, holder_of};
use super::layout::{
    aliases, ext_data, has_alias, ifd_bytes, inline_field, insert_by_tag, out_of_line, padded, row,
    slot, sort_by_tag, table, table_len,
};
use super::model::{first_index, EntryView};
use super::reread::lemma_table_rows;
use super::retain::overwritten;
use super::tree::lemma_first_index;
use super::write::lemma_slot_first;
use vstd::prelude::*;

verus! {

broadcast use {super::codec::lemma_bytes16_len, super::codec::lemma_bytes32_len};

/// `e` with its first bytes replaced by `f`.
pub open spec fn refilled_entry(e: EntryView, f: Seq<u8>) -> EntryView {
    EntryView { value: overwritten(e.value, 0, f), ..e }
}

/// `items` with the first bytes of `items[i]`, and of the values stored with
/// it, replaced by `f`.
pub open spec fn refilled(items: Seq<EntryView>, i: int, f: Seq<u8>) -> Seq<EntryView> {
    Seq::new(
        items.len(),
        |k: int|
            if k == i || aliases(items[k], items[i]) {
                refilled_entry(items[k], f)
            } else {
                items[k]
            },
    )
}

// ── Refilling and sorting ───────────────────────────────────────────────────

/// Inserting commutes with a change that keeps tags.
proof fn lemma_insert_map(s: Seq<EntryView>, e: EntryView, g: spec_fn(EntryView) -> EntryView)
    requires
        forall|x: EntryView| (#[trigger] g(x)).tag == x.tag,
    ensures
        insert_by_tag(s.map_values(g), g(e)) == insert_by_tag(s, e).map_values(g),
    decreases s.len(),
{
    let m = s.map_values(g);
    if s.len() > 0 {
        assert(m.drop_last() =~= s.drop_last().map_values(g));
        if s.last().tag > e.tag {
            lemma_insert_map(s.drop_last(), e, g);
        }
    }
    assert(insert_by_tag(m, g(e)) =~= insert_by_tag(s, e).map_values(g));
}

/// Sorting commutes with a change that keeps tags.
proof fn lemma_sort_map(s: Seq<EntryView>, g: spec_fn(EntryView) -> EntryView)
    requires
        forall|x: EntryView| (#[trigger] g(x)).tag == x.tag,
    ensures
        sort_by_tag(s.map_values(g)) == sort_by_tag(s).map_values(g),
    decreases s.len(),
{
    let m = s.map_values(g);
    if s.len() > 0 {
        assert(m.drop_last() =~= s.drop_last().map_values(g));
        lemma_sort_map(s.drop_last(), g);
        lemma_insert_map(sort_by_tag(s.drop_last()), s.last(), g);
    } else {
        assert(m =~= s);
    }
}

/// What determines the first index of a tag.
proof fn lemma_is_first(s: Seq<EntryView>, tag: u16, i: int)
    requires
        0 <= i < s.len(),
        s[i].tag == tag,
        forall|k: int| 0 <= k < i ==> (#[trigger] s[k]).tag != tag,
    ensures
        first_index(s, tag) == i,
{
    lemma_first_index(s, tag);
    let m = first_index(s, tag);
    if m > i {
        assert(s[i].tag != tag);
    }
    if m < i {
        assert(s[m].tag == tag);
    }
}

/// Inserting commutes with replacing the first entry of a tag by another of
/// that tag.
proof fn lemma_insert_update(s: Seq<EntryView>, x: EntryView, e: EntryView)
    requires
        first_index(s, e.tag) < s.len(),
    ensures
        ({
            let r = insert_by_tag(s, x);
            let i = first_index(r, e.tag);
            &&& 0 <= i < r.len()
            &&& insert_by_tag(s.update(first_index(s, e.tag), e), x) == r.update(i, e)
        }),
    decreases s.len(),
{
    let tag = e.tag;
    let k = first_index(s, tag);
    lemma_first_index(s, tag);
    let u = s.update(k, e);
    let r = insert_by_tag(s, x);
    let p = s.drop_last();
    if s.last().tag <= x.tag {
        lemma_is_first(r, tag, k);
        assert(u.push(x) =~= r.update(k, e));
    } else if k < p.len() {
        lemma_is_first(p, tag, k);
        lemma_insert_update(p, x, e);
        let q = insert_by_tag(p, x);
        let i = first_index(q, tag);
        lemma_first_index(q, tag);
        assert forall|m: int| 0 <= m < i implies (#[trigger] r[m]).tag != tag by {
            assert(r[m] == q[m]);
        }
        lemma_is_first(r, tag, i);
        assert(u.drop_last() =~= p.update(k, e));
        assert(q.update(i, e).push(s.last()) =~= r.update(i, e));
    } else {
        super::layout::lemma_insert_len(p, x);
        let q = insert_by_tag(p, x);
        assert(u.drop_last() =~= p);
        assert forall|m: int| 0 <= m < q.len() implies (#[trigger] q[m]).tag != tag by {
            lemma_insert_elem(p, x, m);
            if q[m] != x {
                let j = p.index_of(q[m]);
                assert(p[j] == s[j]);
            }
        }
        assert forall|m: int| 0 <= m < q.len() implies (#[trigger] r[m]).tag != tag by {
            assert(r[m] == q[m]);
        }
        lemma_is_first(r, tag, q.len() as int);
        assert(q.push(e) =~= r.update(q.len() as int, e));
    }
}

/// What is in a list after inserting was there before, or was inserted.
proof fn lemma_insert_elem(s: Seq<EntryView>, e: EntryView, i: int)
    requires
        0 <= i < insert_by_tag(s, e).len(),
    ensures
        insert_by_tag(s, e)[i] == e || s.contains(insert_by_tag(s, e)[i]),
    decreases s.len(),
{
    let r = insert_by_tag(s, e);
    if s.len() == 0 || s.last().tag <= e.tag {
        if i < s.len() {
            assert(s[i] == r[i]);
        }
    } else {
        let p = s.drop_last();
        let q = insert_by_tag(p, e);
        if i < q.len() {
            lemma_insert_elem(p, e, i);
            assert(r[i] == q[i]);
            if q[i] != e {
                let j = p.index_of(q[i]);
                assert(s[j] == q[i]);
            }
        } else {
            assert(r[i] == s[s.len() - 1]);
        }
    }
}

/// The first entry of a tag to be inserted can be replaced afterwards.
proof fn lemma_insert_first(s: Seq<EntryView>, x: EntryView, e: EntryView)
    requires
        x.tag == e.tag,
        forall|k: int| 0 <= k < s.len() ==> (#[trigger] s[k]).tag != e.tag,
    ensures
        ({
            let r = insert_by_tag(s, x);
            let i = first_index(r, e.tag);
            &&& 0 <= i < r.len()
            &&& insert_by_tag(s, e) == r.update(i, e)
        }),
    decreases s.len(),
{
    let tag = e.tag;
    let r = insert_by_tag(s, x);
    if s.len() == 0 || s.last().tag <= tag {
        assert forall|m: int| 0 <= m < s.len() implies (#[trigger] r[m]).tag != tag by {
            assert(r[m] == s[m]);
        }
        lemma_is_first(r, tag, s.len() as int);
        assert(s.push(e) =~= r.update(s.len() as int, e));
    } else {
        let p = s.drop_last();
        lemma_insert_first(p, x, e);
        let q = insert_by_tag(p, x);
        let i = first_index(q, tag);
        lemma_first_index(q, tag);
        assert forall|m: int| 0 <= m < i implies (#[trigger] r[m]).tag != tag by {
            assert(r[m] == q[m]);
        }
        lemma_is_first(r, tag, i);
        assert(q.update(i, e).push(s.last()) =~= r.update(i, e));
    }
}

/// Sorting commutes with replacing the first entry of a tag by another of that
/// tag.
pub proof fn lemma_sort_update(s: Seq<EntryView>, e: EntryView)
    requires
        first_index(s, e.tag) < s.len(),
    ensures
        ({
            let r = sort_by_tag(s);
            let i = first_index(r, e.tag);
            &&& 0 <= i < r.len()
            &&& sort_by_tag(s.update(first_index(s, e.tag), e)) == r.update(i, e)
        }),
    decreases s.len(),
{
    let tag = e.tag;
    let k = first_index(s, tag);
    lemma_first_index(s, tag);
    let p = s.drop_last();
    let u = s.update(k, e);
    if k < p.len() {
        lemma_is_first(p, tag, k);
        lemma_sort_update(p, e);
        assert(u.drop_last() =~= p.update(k, e));
        lemma_insert_update(sort_by_tag(p), s.last(), e);
    } else {
        assert(u.drop_last() =~= p);
        super::sorting::lemma_sort_sorted(p);
        let q = sort_by_tag(p);
        assert forall|m: int| 0 <= m < q.len() implies (#[trigger] q[m]).tag != tag by {
            assert(p.contains(q[m]));
            let j = p.index_of(q[m]);
            assert(p[j] == s[j]);
        }
        lemma_insert_first(q, s.last(), e);
    }
}

/// Refilling the first entry of a tag commutes with sorting.
pub proof fn lemma_refilled_sorted(s: Seq<EntryView>, tag: u16, f: Seq<u8>)
    requires
        first_index(s, tag) < s.len(),
    ensures
        ({
            let r = sort_by_tag(s);
            let i = first_index(r, tag);
            &&& 0 <= i < r.len()
            &&& r[i] == s[first_index(s, tag)]
            &&& sort_by_tag(refilled(s, first_index(s, tag), f)) == refilled(r, i, f)
        }),
{
    let k = first_index(s, tag);
    lemma_first_index(s, tag);
    let o = s[k];
    let e = refilled_entry(o, f);
    let g = |x: EntryView|
        if aliases(x, o) {
            refilled_entry(x, f)
        } else {
            x
        };
    let r = sort_by_tag(s);
    lemma_sort_map(s, g);
    let m = s.map_values(g);
    assert forall|j: int| 0 <= j < k implies (#[trigger] m[j]).tag != tag by {
        assert(s[j].tag != tag);
    }
    lemma_is_first(m, tag, k);
    lemma_sort_update(m, e);
    assert(m.update(k, e) =~= refilled(s, k, f));
    super::roundtrip::lemma_sort_keeps_tag(s, tag);
    lemma_first_index(r, tag);
    let i = first_index(r, tag);
    assert(i < r.len());
    assert(r[i] == o);
    let n = r.map_values(g);
    assert forall|j: int| 0 <= j < i implies (#[trigger] n[j]).tag != tag by {
        assert(r[j].tag != tag);
    }
    lemma_is_first(n, tag, i);
    assert(n.update(i, e) =~= refilled(r, i, f));
}

// ── Refilling and storing ───────────────────────────────────────────────────

/// Whether values of one length read from one place are the same.
pub open spec fn single_sourced(items: Seq<EntryView>) -> bool {
    forall|j: int, k: int|
        0 <= j < items.len() && 0 <= k < items.len() && out_of_line(#[trigger] items[j])
            && items[j].origin() is Some && items[j].origin() == (#[trigger] items[k]).origin()
            && items[j].value.len() == items[k].value.len() ==> items[j].value == items[k].value
}

/// Whether two lists hold values of the same lengths and share them alike.
pub open spec fn stored_alike(a: Seq<EntryView>, b: Seq<EntryView>) -> bool {
    &&& a.len() == b.len()
    &&& forall|k: int| 0 <= k < a.len() ==> (#[trigger] a[k]).value.len() == b[k].value.len()
    &&& forall|j: int, k: int|
        0 <= j < a.len() && 0 <= k < a.len() ==> #[trigger] aliases(a[j], a[k]) == aliases(
            b[j],
            b[k],
        )
}

/// Refilling keeps what is stored together.
pub proof fn lemma_refilled_alike(items: Seq<EntryView>, i: int, f: Seq<u8>)
    requires
        single_sourced(items),
        0 <= i < items.len(),
        f.len() <= items[i].value.len(),
    ensures
        stored_alike(items, refilled(items, i, f)),
{
    let r = refilled(items, i, f);
    let o = items[i];
    assert forall|j: int, k: int| 0 <= j < items.len() && 0 <= k < items.len() implies #[trigger] aliases(
        items[j],
        items[k],
    ) == aliases(r[j], r[k]) by {
        let cj = j == i || aliases(items[j], o);
        let ck = k == i || aliases(items[k], o);
        if cj != ck && r[j].origin() == r[k].origin() && r[j].value.len() == r[k].value.len()
            && out_of_line(r[j]) && r[j].origin() is Some {
            assert(items[j].value == items[k].value);
            assert(aliases(items[j], items[k]));
        }
    }
}

/// The first entries of lists stored alike are stored alike.
proof fn lemma_alike_take(a: Seq<EntryView>, b: Seq<EntryView>, n: int)
    requires
        stored_alike(a, b),
        0 <= n <= a.len(),
    ensures
        stored_alike(a.take(n), b.take(n)),
{
    let x = a.take(n);
    let y = b.take(n);
    assert forall|k: int| 0 <= k < n implies (#[trigger] x[k]).value.len() == y[k].value.len() by {
        assert(a[k].value.len() == b[k].value.len());
    }
    assert forall|j: int, k: int| 0 <= j < n && 0 <= k < n implies #[trigger] aliases(x[j], x[k])
        == aliases(y[j], y[k]) by {
        assert(aliases(a[j], a[k]) == aliases(b[j], b[k]));
    }
}

/// Lists stored alike have their values stored before, or not, alike.
proof fn lemma_alike_has_alias(a: Seq<EntryView>, b: Seq<EntryView>, i: int)
    requires
        stored_alike(a, b),
        0 <= i < a.len(),
    ensures
        has_alias(a.take(i), a[i]) == has_alias(b.take(i), b[i]),
{
    let x = a.take(i);
    let y = b.take(i);
    if has_alias(x, a[i]) {
        let j = choose|j: int| 0 <= j < x.len() && aliases(#[trigger] x[j], a[i]);
        assert(aliases(a[j], a[i]) == aliases(b[j], b[i]));
        assert(aliases(y[j], b[i]));
    }
    if has_alias(y, b[i]) {
        let j = choose|j: int| 0 <= j < y.len() && aliases(#[trigger] y[j], b[i]);
        assert(aliases(a[j], a[i]) == aliases(b[j], b[i]));
        assert(aliases(x[j], a[i]));
    }
}

/// Lists stored alike take up as many bytes.
pub proof fn lemma_alike_ext_len(a: Seq<EntryView>, b: Seq<EntryView>)
    requires
        stored_alike(a, b),
    ensures
        ext_data(a).len() == ext_data(b).len(),
    decreases a.len(),
{
    if a.len() > 0 {
        let n = a.len() - 1;
        assert(a.take(n) =~= a.drop_last());
        assert(b.take(n) =~= b.drop_last());
        lemma_alike_take(a, b, n);
        lemma_alike_ext_len(a.take(n), b.take(n));
        lemma_alike_has_alias(a, b, n);
        assert(a[n].value.len() == b[n].value.len());
    }
}

/// Lists stored alike have their values at the same places.
pub proof fn lemma_alike_slot(a: Seq<EntryView>, b: Seq<EntryView>, i: int)
    requires
        stored_alike(a, b),
        0 <= i < a.len(),
    ensures
        slot(a.take(i), a[i]) == slot(b.take(i), b[i]),
{
    let x = a.take(i);
    let y = b.take(i);
    let j = first_alias_of(x, a[i]);
    lemma_slot_first(x, a[i], j);
    assert forall|k: int| 0 <= k < j implies !aliases(#[trigger] y[k], b[i]) by {
        assert(!aliases(x[k], a[i]));
        assert(aliases(a[k], a[i]) == aliases(b[k], b[i]));
    }
    if j < i {
        assert(aliases(a[j], a[i]) == aliases(b[j], b[i]));
        assert(aliases(y[j], b[i]));
    }
    lemma_slot_first(y, b[i], j);
    assert(x.take(j) =~= a.take(j));
    assert(y.take(j) =~= b.take(j));
    lemma_alike_take(a, b, j);
    lemma_alike_ext_len(a.take(j), b.take(j));
}

/// Overwriting commutes with appending.
pub proof fn lemma_overwritten_front(a: Seq<u8>, b: Seq<u8>, at: int, f: Seq<u8>)
    requires
        0 <= at,
        at + f.len() <= a.len(),
    ensures
        overwritten(a + b, at, f) == overwritten(a, at, f) + b,
        overwritten(a, at, f).len() == a.len(),
{
    assert(overwritten(a + b, at, f) =~= overwritten(a, at, f) + b);
}

/// Overwriting what was appended.
pub proof fn lemma_overwritten_back(a: Seq<u8>, b: Seq<u8>, at: int, f: Seq<u8>)
    requires
        0 <= at,
        at + f.len() <= b.len(),
    ensures
        overwritten(a + b, a.len() + at, f) == a + overwritten(b, at, f),
        overwritten(b, at, f).len() == b.len(),
{
    assert(overwritten(a + b, a.len() + at, f) =~= a + overwritten(b, at, f));
}

/// Refilling an inline value leaves the out-of-line bytes.
proof fn lemma_refilled_ext_inline(items: Seq<EntryView>, i: int, f: Seq<u8>, n: int)
    requires
        single_sourced(items),
        0 <= i < items.len(),
        f.len() <= items[i].value.len(),
        !out_of_line(items[i]),
        0 <= n <= items.len(),
    ensures
        ext_data(refilled(items, i, f).take(n)) == ext_data(items.take(n)),
    decreases n,
{
    let r = refilled(items, i, f);
    if n > 0 {
        lemma_refilled_alike(items, i, f);
        lemma_refilled_ext_inline(items, i, f, n - 1);
        assert(r.take(n).drop_last() =~= r.take(n - 1));
        assert(items.take(n).drop_last() =~= items.take(n - 1));
        lemma_alike_has_alias(items, r, n - 1);
        assert(items[n - 1].value.len() == r[n - 1].value.len());
        if n - 1 != i {
            assert(!aliases(items[n - 1], items[i]));
            assert(r[n - 1] == items[n - 1]);
        }
    } else {
        assert(r.take(0) =~= items.take(0));
    }
}

/// Refilling an out-of-line value overwrites its slot. `h` is the entry that
/// fills the slot.
proof fn lemma_refilled_ext(items: Seq<EntryView>, i: int, f: Seq<u8>, h: int, n: int)
    requires
        single_sourced(items),
        0 <= h <= i < items.len(),
        f.len() <= items[i].value.len(),
        out_of_line(items[i]),
        forall|k: int| 0 <= k < h ==> !aliases(#[trigger] items[k], items[i]),
        h == i || aliases(items[h], items[i]),
        !has_alias(items.take(h), items[h]),
        0 <= n <= items.len(),
    ensures
        ({
            let at = ext_data(items.take(h)).len() as int;
            let e = ext_data(items.take(n));
            ext_data(refilled(items, i, f).take(n)) == (if n <= h {
                e
            } else {
                overwritten(e, at, f)
            }) && (n > h ==> at + f.len() <= e.len())
        }),
    decreases n,
{
    let r = refilled(items, i, f);
    if n == 0 {
        assert(r.take(0) =~= items.take(0));
    } else {
        let k = n - 1;
        lemma_refilled_alike(items, i, f);
        lemma_refilled_ext(items, i, f, h, k);
        assert(r.take(n).drop_last() =~= r.take(k));
        assert(items.take(n).drop_last() =~= items.take(k));
        lemma_alike_has_alias(items, r, k);
        assert(items[k].value.len() == r[k].value.len());
        let before = ext_data(items.take(k));
        if k < h {
            assert(!aliases(items[k], items[i]));
            assert(r[k] == items[k]);
        } else if k == h {
            assert(out_of_line(items[h]));
            assert(items[h].value == items[i].value);
            let v = items[h].value;
            assert(padded(r[h].value) =~= overwritten(padded(v), 0, f));
            lemma_overwritten_back(before, padded(v), 0, f);
        } else {
            let at = ext_data(items.take(h)).len() as int;
            if out_of_line(items[k]) && !has_alias(items.take(k), items[k]) {
                if k == i || aliases(items[k], items[i]) {
                    assert(aliases(items.take(k)[h], items[k]));
                    assert(false);
                }
                lemma_overwritten_front(before, padded(items[k].value), at, f);
            }
        }
    }
}

/// Refilling keeps the row of every entry but that of an inline value, whose
/// field it overwrites.
proof fn lemma_refilled_row(
    items: Seq<EntryView>,
    i: int,
    f: Seq<u8>,
    k: int,
    ext_base: int,
    order: ByteOrder,
)
    requires
        single_sourced(items),
        0 <= i < items.len(),
        f.len() <= items[i].value.len(),
        0 <= k < items.len(),
    ensures
        row(refilled(items, i, f), k, ext_base, order) == (if k == i && !out_of_line(items[i]) {
            overwritten(row(items, k, ext_base, order), 8, f)
        } else {
            row(items, k, ext_base, order)
        }),
{
    let r = refilled(items, i, f);
    lemma_refilled_alike(items, i, f);
    lemma_alike_slot(items, r, k);
    assert(items[k].value.len() == r[k].value.len());
    if k == i && !out_of_line(items[i]) {
        let v = items[i].value;
        assert(inline_field(r[k].value) =~= overwritten(inline_field(v), 0, f));
        let a = bytes16(items[k].tag, order) + bytes16(items[k].kind, order) + bytes32(
            items[k].count,
            order,
        );
        assert(a.len() == 8);
        lemma_overwritten_back(a, inline_field(v), 0, f);
    }
}

/// Refilling keeps the table, but for the field of an inline value.
proof fn lemma_refilled_table(
    items: Seq<EntryView>,
    i: int,
    f: Seq<u8>,
    n: nat,
    ext_base: int,
    order: ByteOrder,
)
    requires
        single_sourced(items),
        0 <= i < items.len(),
        f.len() <= items[i].value.len(),
        n <= items.len(),
    ensures
        table(refilled(items, i, f), n, ext_base, order) == (if i < n && !out_of_line(items[i]) {
            overwritten(table(items, n, ext_base, order), 12 * i + 8, f)
        } else {
            table(items, n, ext_base, order)
        }),
    decreases n,
{
    if n > 0 {
        let k = (n - 1) as nat;
        lemma_refilled_table(items, i, f, k, ext_base, order);
        lemma_refilled_row(items, i, f, k as int, ext_base, order);
        lemma_table_rows(items, k, ext_base, order, 0);
        let t = table(items, k, ext_base, order);
        let w = row(items, k as int, ext_base, order);
        if !out_of_line(items[i]) {
            if k == i {
                lemma_overwritten_back(t, w, 8, f);
            } else if i < k {
                lemma_overwritten_front(t, w, 12 * i + 8, f);
            }
        }
    }
}

/// Where in a written directory the value of `items[i]` is.
pub open spec fn place_of(items: Seq<EntryView>, i: int) -> int {
    if out_of_line(items[i]) {
        table_len(items.len() as int) + slot(items.take(i), items[i])
    } else {
        2 + 12 * i + 8
    }
}

/// A refilled directory is written as the directory with the value overwritten
/// in its place.
pub proof fn lemma_refilled_ifd(
    items: Seq<EntryView>,
    i: int,
    f: Seq<u8>,
    ext_base: int,
    next: u32,
    order: ByteOrder,
)
    requires
        single_sourced(items),
        0 <= i < items.len(),
        f.len() <= items[i].value.len(),
    ensures
        ifd_bytes(refilled(items, i, f), ext_base, next, order) == overwritten(
            ifd_bytes(items, ext_base, next, order),
            place_of(items, i),
            f,
        ),
        place_of(items, i) + f.len() <= ifd_bytes(items, ext_base, next, order).len(),
{
    let r = refilled(items, i, f);
    let n = items.len();
    let c = bytes16(n as u16, order);
    let t = table(items, n, ext_base, order);
    let x = bytes32(next, order);
    let d = ext_data(items);
    lemma_table_rows(items, n, ext_base, order, 0);
    lemma_refilled_table(items, i, f, n, ext_base, order);
    assert(r.take(n as int) =~= r);
    assert(items.take(n as int) =~= items);
    if out_of_line(items[i]) {
        let h = holder_of(items, i);
        lemma_refilled_ext(items, i, f, h, n as int);
        lemma_overwritten_back(c + t + x, d, slot(items.take(i), items[i]) as int, f);
    } else {
        lemma_refilled_ext_inline(items, i, f, n as int);
        lemma_overwritten_back(c, t, 12 * i + 8, f);
        lemma_overwritten_front(c + t, x, 2 + 12 * i + 8, f);
        lemma_overwritten_front(c + t + x, d, 2 + 12 * i + 8, f);
    }
}

} // verus!
