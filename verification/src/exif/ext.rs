//! The out-of-line bytes: what is found in a slot, and what the layout
//! depends on.
use super::layout::{aliases, ext_data, has_alias, ifd_bytes, out_of_line, padded, slot, table};
use super::codec::ByteOrder;
use super::model::EntryView;
use super::write::{lemma_ext_prefix, lemma_slot_first};
use vstd::prelude::*;

verus! {

broadcast use {super::codec::lemma_bytes16_len, super::codec::lemma_bytes32_len};

/// Whether two entries agree in all but where their values were read.
pub open spec fn same_entry(a: EntryView, b: EntryView) -> bool {
    a.tag == b.tag && a.kind == b.kind && a.count == b.count && a.value == b.value
}

/// Whether two lists hold the same entries, read from anywhere.
pub open spec fn same_entries(a: Seq<EntryView>, b: Seq<EntryView>) -> bool {
    a.len() == b.len() && forall|i: int|
        0 <= i < a.len() ==> same_entry(#[trigger] a[i], #[trigger] b[i])
}

/// Whether `x` and `y` alias the same members of two lists.
pub open spec fn aliased_alike(
    a: Seq<EntryView>,
    b: Seq<EntryView>,
    x: EntryView,
    y: EntryView,
) -> bool {
    a.len() == b.len() && forall|i: int|
        0 <= i < a.len() ==> aliases(#[trigger] a[i], x) == aliases(#[trigger] b[i], y)
}

/// Whether two lists hold the same entries and share values alike.
#[verifier::opaque]
pub open spec fn similar(a: Seq<EntryView>, b: Seq<EntryView>) -> bool {
    &&& same_entries(a, b)
    &&& forall|k: int|
        0 <= k < a.len() ==> aliased_alike(a.take(k), b.take(k), #[trigger] a[k], #[trigger] b[k])
}

/// The index of the first member of `before` that `e` aliases, or the length.
pub proof fn first_alias_of(before: Seq<EntryView>, e: EntryView) -> (j: int)
    ensures
        0 <= j <= before.len(),
        forall|k: int| 0 <= k < j ==> !aliases(#[trigger] before[k], e),
        j < before.len() ==> aliases(before[j], e),
    decreases before.len(),
{
    if before.len() == 0 {
        0
    } else {
        let p = before.drop_last();
        let j = first_alias_of(p, e);
        if j < p.len() {
            assert(p[j] == before[j]);
            assert forall|k: int| 0 <= k < j implies !aliases(#[trigger] before[k], e) by {
                assert(p[k] == before[k]);
            }
            j
        } else {
            assert forall|k: int| 0 <= k < before.len() - 1 implies !aliases(
                #[trigger] before[k],
                e,
            ) by {
                assert(p[k] == before[k]);
            }
            if aliases(before.last(), e) {
                before.len() - 1
            } else {
                before.len() as int
            }
        }
    }
}

/// The member of `items` whose bytes fill the slot of `items[i]`: the first
/// that `items[i]` aliases, or itself. Nothing before it has those bytes.
pub proof fn holder_of(items: Seq<EntryView>, i: int) -> (j: int)
    requires
        0 <= i < items.len(),
        out_of_line(items[i]),
    ensures
        0 <= j <= i,
        forall|k: int| 0 <= k < j ==> !aliases(#[trigger] items[k], items[i]),
        j == i || aliases(items[j], items[i]),
        out_of_line(items[j]),
        items[j].value.len() == items[i].value.len(),
        slot(items.take(i), items[i]) == ext_data(items.take(j)).len(),
        !has_alias(items.take(j), items[j]),
{
    let before = items.take(i);
    let j = first_alias_of(before, items[i]);
    lemma_slot_first(before, items[i], j);
    assert(before.take(j) =~= items.take(j));
    assert forall|k: int| 0 <= k < j implies !aliases(#[trigger] items[k], items[i]) by {
        assert(before[k] == items[k]);
    }
    if j < i {
        assert(before[j] == items[j]);
    }
    if has_alias(items.take(j), items[j]) {
        let k = choose|k: int|
            0 <= k < items.take(j).len() && aliases(#[trigger] items.take(j)[k], items[j]);
        assert(items.take(j)[k] == items[k]);
        assert(aliases(items[k], items[i]));
    }
    j
}

/// A placed value is found behind what was placed before it.
pub proof fn lemma_placed(items: Seq<EntryView>, j: int)
    requires
        0 <= j < items.len(),
        out_of_line(items[j]),
        !has_alias(items.take(j), items[j]),
    ensures
        ext_data(items.take(j + 1)) == ext_data(items.take(j)) + padded(items[j].value),
        ext_data(items.take(j)).len() + items[j].value.len() <= ext_data(items).len(),
        ext_data(items).subrange(
            ext_data(items.take(j)).len() as int,
            (ext_data(items.take(j)).len() + items[j].value.len()) as int,
        ) == items[j].value,
{
    let t = items.take(j + 1);
    assert(t.drop_last() =~= items.take(j));
    assert(t.last() == items[j]);
    lemma_ext_prefix(items, j + 1);
    let at = ext_data(items.take(j)).len() as int;
    let n = items[j].value.len() as int;
    let d = ext_data(items);
    let m = ext_data(t).len() as int;
    assert(d.take(m) == ext_data(items.take(j)) + padded(items[j].value));
    assert forall|k: int| 0 <= k < n implies d.subrange(at, at + n)[k] == items[j].value[k] by {
        assert(d.subrange(at, at + n)[k] == d[at + k]);
        assert(d.take(m)[at + k] == d[at + k]);
        assert((ext_data(items.take(j)) + padded(items[j].value))[at + k] == padded(
            items[j].value,
        )[k]);
    }
    assert(d.subrange(at, at + n) =~= items[j].value);
}

/// The slot of an out-of-line value holds the value.
pub proof fn lemma_slot_holds(items: Seq<EntryView>, i: int)
    requires
        0 <= i < items.len(),
        out_of_line(items[i]),
    ensures
        slot(items.take(i), items[i]) + items[i].value.len() <= ext_data(items).len(),
        ext_data(items).subrange(
            slot(items.take(i), items[i]) as int,
            (slot(items.take(i), items[i]) + items[i].value.len()) as int,
        ) == items[i].value,
{
    let j = holder_of(items, i);
    lemma_placed(items, j);
    if j < i {
        assert(items[j].value == items[i].value);
    }
}

/// Two out-of-line values of one length share a slot exactly when they alias.
pub proof fn lemma_slots_apart(items: Seq<EntryView>, i: int, k: int)
    requires
        0 <= i < k < items.len(),
        out_of_line(items[i]),
        items[i].value.len() == items[k].value.len(),
    ensures
        slot(items.take(i), items[i]) == slot(items.take(k), items[k]) <==> aliases(
            items[i],
            items[k],
        ),
{
    let a = holder_of(items, i);
    let b = holder_of(items, k);
    if a < b {
        lemma_placed(items, a);
        lemma_ext_prefix(items.take(b), a + 1);
        assert(items.take(b).take(a + 1) =~= items.take(a + 1));
        assert(slot(items.take(i), items[i]) < slot(items.take(k), items[k]));
        if aliases(items[i], items[k]) {
            assert(aliases(items[a], items[k]));
            assert(false);
        }
    } else if b < a {
        lemma_placed(items, b);
        lemma_ext_prefix(items.take(a), b + 1);
        assert(items.take(a).take(b + 1) =~= items.take(b + 1));
        assert(slot(items.take(k), items[k]) < slot(items.take(i), items[i]));
        if aliases(items[i], items[k]) {
            assert(aliases(items[b], items[i]));
            assert(false);
        }
    } else {
        assert(aliases(items[i], items[k]));
    }
}

/// Prefixes of similar lists are similar.
pub proof fn lemma_similar_take(a: Seq<EntryView>, b: Seq<EntryView>, n: int)
    requires
        similar(a, b),
        0 <= n <= a.len(),
    ensures
        similar(a.take(n), b.take(n)),
{
    reveal(similar);
    let x = a.take(n);
    let y = b.take(n);
    assert forall|i: int| 0 <= i < x.len() implies same_entry(#[trigger] x[i], #[trigger] y[i]) by {
        assert(same_entry(a[i], b[i]));
    }
    assert forall|k: int| 0 <= k < x.len() implies aliased_alike(
        x.take(k),
        y.take(k),
        #[trigger] x[k],
        #[trigger] y[k],
    ) by {
        assert(x.take(k) =~= a.take(k));
        assert(y.take(k) =~= b.take(k));
        assert(aliased_alike(a.take(k), b.take(k), a[k], b[k]));
    }
}

/// Aliased alike, an alias is there on both sides or on neither.
pub proof fn lemma_alike_has_alias(
    a: Seq<EntryView>,
    b: Seq<EntryView>,
    x: EntryView,
    y: EntryView,
)
    requires
        aliased_alike(a, b, x, y),
    ensures
        has_alias(a, x) == has_alias(b, y),
{
    if has_alias(a, x) {
        let j = choose|j: int| 0 <= j < a.len() && aliases(#[trigger] a[j], x);
        assert(aliases(b[j], y));
    }
    if has_alias(b, y) {
        let j = choose|j: int| 0 <= j < b.len() && aliases(#[trigger] b[j], y);
        assert(aliases(a[j], x));
    }
}

/// Similar directories have the same out-of-line bytes.
pub proof fn lemma_similar_ext(a: Seq<EntryView>, b: Seq<EntryView>)
    requires
        similar(a, b),
    ensures
        ext_data(a) == ext_data(b),
    decreases a.len(),
{
    reveal(similar);
    if a.len() > 0 {
        let n = a.len() - 1;
        lemma_similar_take(a, b, n);
        assert(a.take(n) =~= a.drop_last());
        assert(b.take(n) =~= b.drop_last());
        lemma_similar_ext(a.drop_last(), b.drop_last());
        assert(same_entry(a[n], b[n]));
        assert(aliased_alike(a.take(n), b.take(n), a[n], b[n]));
        lemma_alike_has_alias(a.take(n), b.take(n), a[n], b[n]);
    }
}

/// In similar lists, values that alias alike have the same slot.
pub proof fn lemma_similar_slot(
    a: Seq<EntryView>,
    b: Seq<EntryView>,
    x: EntryView,
    y: EntryView,
)
    requires
        similar(a, b),
        aliased_alike(a, b, x, y),
    ensures
        slot(a, x) == slot(b, y),
{
    reveal(similar);
    let j = first_alias_of(a, x);
    lemma_slot_first(a, x, j);
    assert forall|k: int| 0 <= k < j implies !aliases(#[trigger] b[k], y) by {
        assert(!aliases(a[k], x));
    }
    if j < b.len() {
        assert(aliases(a[j], x) == aliases(b[j], y));
    }
    lemma_slot_first(b, y, j);
    lemma_similar_take(a, b, j);
    lemma_similar_ext(a.take(j), b.take(j));
}

/// Similar directories have the same table.
pub proof fn lemma_similar_table(
    a: Seq<EntryView>,
    b: Seq<EntryView>,
    n: nat,
    ext_base: int,
    order: ByteOrder,
)
    requires
        similar(a, b),
        n <= a.len(),
    ensures
        table(a, n, ext_base, order) == table(b, n, ext_base, order),
    decreases n,
{
    reveal(similar);
    if n > 0 {
        let i = n - 1;
        lemma_similar_table(a, b, i as nat, ext_base, order);
        assert(same_entry(a[i], b[i]));
        assert(aliased_alike(a.take(i), b.take(i), a[i], b[i]));
        lemma_similar_take(a, b, i);
        lemma_similar_slot(a.take(i), b.take(i), a[i], b[i]);
    }
}

/// Similar directories are written alike.
pub proof fn lemma_similar_ifd(
    a: Seq<EntryView>,
    b: Seq<EntryView>,
    ext_base: int,
    next: u32,
    order: ByteOrder,
)
    requires
        similar(a, b),
    ensures
        ifd_bytes(a, ext_base, next, order) == ifd_bytes(b, ext_base, next, order),
{
    reveal(similar);
    lemma_similar_table(a, b, a.len(), ext_base, order);
    lemma_similar_ext(a, b);
}

/// Similar lists hold the same entries.
pub proof fn lemma_similar_same(a: Seq<EntryView>, b: Seq<EntryView>)
    requires
        similar(a, b),
    ensures
        same_entries(a, b),
        a.len() == b.len(),
{
    reveal(similar);
}

} // verus!
