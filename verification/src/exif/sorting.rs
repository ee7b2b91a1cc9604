//! What sorting by tag keeps, and what it has to do with the out-of-line bytes.
use super::layout::{
    aliases, ext_data, has_alias, insert_by_tag, out_of_line, sort_by_tag, tag_sorted,
};
use super::model::EntryView;
use vstd::prelude::*;

verus! {

broadcast use {super::codec::lemma_bytes16_len, super::codec::lemma_bytes32_len};

/// Inserting keeps tag order and brings in nothing but the inserted entry.
pub proof fn lemma_insert_sorted(s: Seq<EntryView>, e: EntryView)
    requires
        tag_sorted(s),
    ensures
        tag_sorted(insert_by_tag(s, e)),
        forall|i: int|
            0 <= i < insert_by_tag(s, e).len() ==> (#[trigger] insert_by_tag(s, e)[i]) == e
                || s.contains(insert_by_tag(s, e)[i]),
    decreases s.len(),
{
    let r = insert_by_tag(s, e);
    if s.len() == 0 || s.last().tag <= e.tag {
        assert forall|i: int| 0 <= i < r.len() implies (#[trigger] r[i]) == e || s.contains(
            r[i],
        ) by {
            if i < s.len() {
                assert(s[i] == r[i]);
            }
        }
    } else {
        let p = s.drop_last();
        lemma_insert_sorted(p, e);
        let q = insert_by_tag(p, e);
        assert forall|i: int| 0 <= i < r.len() implies ((#[trigger] r[i]) == e || s.contains(r[i]))
            && r[i].tag <= s.last().tag by {
            if i < q.len() {
                assert(r[i] == q[i]);
                if q[i] != e {
                    let k = p.index_of(q[i]);
                    assert(p.contains(q[i]));
                    assert(s[k] == q[i]);
                }
            } else {
                assert(s[s.len() - 1] == r[i]);
            }
        }
        assert forall|i: int, j: int| 0 <= i <= j < r.len() implies (#[trigger] r[i]).tag <= (
        #[trigger] r[j]).tag by {
            if j < q.len() {
                assert(r[i] == q[i] && r[j] == q[j]);
            }
        }
    }
}

/// Sorting gives tag order and brings in nothing.
pub proof fn lemma_sort_sorted(s: Seq<EntryView>)
    ensures
        tag_sorted(sort_by_tag(s)),
        forall|i: int|
            0 <= i < sort_by_tag(s).len() ==> s.contains(#[trigger] sort_by_tag(s)[i]),
    decreases s.len(),
{
    if s.len() > 0 {
        let p = s.drop_last();
        lemma_sort_sorted(p);
        lemma_insert_sorted(sort_by_tag(p), s.last());
        let r = sort_by_tag(s);
        assert forall|i: int| 0 <= i < r.len() implies s.contains(#[trigger] r[i]) by {
            if r[i] == s.last() {
                assert(s[s.len() - 1] == r[i]);
            } else {
                let k = sort_by_tag(p).index_of(r[i]);
                assert(sort_by_tag(p).contains(r[i]));
                assert(sort_by_tag(p)[k] == r[i]);
                assert(p.contains(r[i]));
                let m = p.index_of(r[i]);
                assert(s[m] == r[i]);
            }
        }
    }
}

/// Sorting sorted entries changes nothing.
pub proof fn lemma_sort_of_sorted(s: Seq<EntryView>)
    requires
        tag_sorted(s),
    ensures
        sort_by_tag(s) == s,
    decreases s.len(),
{
    if s.len() > 0 {
        let p = s.drop_last();
        assert forall|i: int, j: int| 0 <= i <= j < p.len() implies (#[trigger] p[i]).tag <= (
        #[trigger] p[j]).tag by {
            assert(s[i].tag <= s[j].tag);
        }
        lemma_sort_of_sorted(p);
        if p.len() > 0 {
            assert(s[p.len() - 1].tag <= s[s.len() - 1].tag);
        }
        assert(p.push(s.last()) =~= s);
    }
}

/// Elements of a filtered sequence satisfy the predicate and come from it.
pub proof fn lemma_filter_elem(s: Seq<EntryView>, p: spec_fn(EntryView) -> bool, i: int)
    requires
        0 <= i < s.filter(p).len(),
    ensures
        p(s.filter(p)[i]),
        s.contains(s.filter(p)[i]),
{
    s.lemma_filter_pred(p, i);
    assert(s.filter(p).contains(s.filter(p)[i]));
    s.lemma_filter_contains_rev(p, s.filter(p)[i]);
}

/// Inserting and then filtering is filtering and then inserting.
pub proof fn lemma_insert_filter(s: Seq<EntryView>, e: EntryView, p: spec_fn(EntryView) -> bool)
    requires
        tag_sorted(s),
    ensures
        insert_by_tag(s, e).filter(p) == (if p(e) {
            insert_by_tag(s.filter(p), e)
        } else {
            s.filter(p)
        }),
    decreases s.len(),
{
    reveal(Seq::filter);
    if s.len() == 0 || s.last().tag <= e.tag {
        assert(s.push(e).drop_last() =~= s);
        let f = s.filter(p);
        if f.len() > 0 {
            lemma_filter_elem(s, p, f.len() - 1);
            let k = s.index_of(f.last());
            assert(s[k] == f.last());
            assert(s[k].tag <= s[s.len() - 1].tag);
        }
    } else {
        let q = s.drop_last();
        lemma_insert_filter(q, e, p);
        let r = insert_by_tag(q, e).push(s.last());
        assert(r.drop_last() =~= insert_by_tag(q, e));
        assert(s.filter(p) == (if p(s.last()) {
            q.filter(p).push(s.last())
        } else {
            q.filter(p)
        }));
        if p(s.last()) {
            assert(s.filter(p).drop_last() =~= q.filter(p));
        }
    }
}

/// Sorting and then filtering is filtering and then sorting.
pub proof fn lemma_sort_filter(s: Seq<EntryView>, p: spec_fn(EntryView) -> bool)
    ensures
        sort_by_tag(s).filter(p) == sort_by_tag(s.filter(p)),
    decreases s.len(),
{
    reveal(Seq::filter);
    if s.len() > 0 {
        let q = s.drop_last();
        lemma_sort_filter(q, p);
        lemma_sort_sorted(q);
        lemma_insert_filter(sort_by_tag(q), s.last(), p);
        if p(s.last()) {
            assert(s.filter(p).drop_last() =~= q.filter(p));
        }
    }
}

/// A sequence whose elements all satisfy the predicate is its own filtering.
pub proof fn lemma_filter_all(s: Seq<EntryView>, p: spec_fn(EntryView) -> bool)
    requires
        forall|i: int| 0 <= i < s.len() ==> p(#[trigger] s[i]),
    ensures
        s.filter(p) == s,
    decreases s.len(),
{
    reveal(Seq::filter);
    if s.len() > 0 {
        lemma_filter_all(s.drop_last(), p);
        assert(s.drop_last().push(s.last()) =~= s);
    }
}

/// A sequence none of whose elements satisfies the predicate filters to nothing.
pub proof fn lemma_filter_none(s: Seq<EntryView>, p: spec_fn(EntryView) -> bool)
    requires
        forall|i: int| 0 <= i < s.len() ==> !p(#[trigger] s[i]),
    ensures
        s.filter(p) == Seq::<EntryView>::empty(),
    decreases s.len(),
{
    reveal(Seq::filter);
    if s.len() > 0 {
        lemma_filter_none(s.drop_last(), p);
    }
}

/// Inline entries leave no trace in the out-of-line bytes.
pub proof fn lemma_ext_of_outliers(items: Seq<EntryView>)
    ensures
        ext_data(items) == ext_data(items.filter(|e: EntryView| out_of_line(e))),
    decreases items.len(),
{
    let p = |e: EntryView| out_of_line(e);
    reveal(Seq::filter);
    if items.len() > 0 {
        let before = items.drop_last();
        let e = items.last();
        lemma_ext_of_outliers(before);
        if out_of_line(e) {
            let f = before.filter(p);
            assert(items.filter(p) == f.push(e));
            assert(f.push(e).drop_last() =~= f);
            assert(has_alias(before, e) == has_alias(f, e)) by {
                if has_alias(before, e) {
                    let j = choose|j: int| 0 <= j < before.len() && aliases(#[trigger] before[j], e);
                    before.lemma_filter_contains(p, j);
                    let k = f.index_of(before[j]);
                    assert(f[k] == before[j]);
                }
                if has_alias(f, e) {
                    let j = choose|j: int| 0 <= j < f.len() && aliases(#[trigger] f[j], e);
                    lemma_filter_elem(before, p, j);
                    let k = before.index_of(f[j]);
                    assert(before[k] == f[j]);
                }
            }
        }
    }
}

/// Pointers do not change a directory's out-of-line bytes.
pub proof fn lemma_ext_with_pointers(entries: Seq<EntryView>, ptrs: Seq<EntryView>)
    requires
        forall|i: int| 0 <= i < ptrs.len() ==> !out_of_line(#[trigger] ptrs[i]),
    ensures
        ext_data(sort_by_tag(entries + ptrs)) == ext_data(sort_by_tag(entries)),
{
    let p = |e: EntryView| out_of_line(e);
    lemma_ext_of_outliers(sort_by_tag(entries + ptrs));
    lemma_ext_of_outliers(sort_by_tag(entries));
    lemma_sort_filter(entries + ptrs, p);
    lemma_sort_filter(entries, p);
    Seq::filter_distributes_over_add(entries, ptrs, p);
    lemma_filter_none(ptrs, p);
    assert(entries.filter(p) + ptrs.filter(p) =~= entries.filter(p));
}

} // verus!
