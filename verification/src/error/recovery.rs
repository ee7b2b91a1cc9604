//! Finding an envelope in a chain of causes.
use vstd::prelude::*;

verus! {

/// What a link in a chain of causes is.
#[derive(Clone, Copy, Debug, PartialEq, Eq, Structural)]
pub enum Link {
    /// An envelope with a location trace.
    Located,
    /// An envelope.
    Bare,
    /// A boxed envelope with a location trace.
    BoxedLocated,
    /// A location trace of a boxed envelope.
    LocatedBoxed,
    /// A boxed envelope.
    BoxedBare,
    /// Anything else.
    Other,
}

/// The first value that is present.
pub open spec fn first_present<T>(links: Seq<Option<T>>) -> Option<T>
    decreases links.len(),
{
    if links.len() == 0 {
        None
    } else if links[0] is Some {
        links[0]
    } else {
        first_present(links.drop_first())
    }
}

/// The first cause of a type in a chain of causes. Each link is given as what it
/// is of that type, from the error itself to its root cause.
pub fn find_cause<'a, T>(links: &[Option<&'a T>]) -> (r: Option<&'a T>)
    ensures
        r == first_present(links@),
{
    assert(links@.skip(0) =~= links@);
    let mut i: usize = 0;
    while i < links.len()
        invariant
            i <= links@.len(),
            first_present(links@) == first_present(links@.skip(i as int)),
        decreases links.len() - i,
    {
        if links[i].is_some() {
            return links[i];
        }
        i += 1;
        assert(links@.skip(i - 1).drop_first() =~= links@.skip(i as int));
    }
    None
}

/// The index of the first link of a kind, or the length if there is none.
pub open spec fn first_link(chain: Seq<Link>, link: Link) -> int
    decreases chain.len(),
{
    if chain.len() == 0 || chain[0] == link {
        0
    } else {
        1 + first_link(chain.drop_first(), link)
    }
}

/// The kinds of envelopes, in the order in which they are looked for.
pub open spec fn envelope_order() -> Seq<Link> {
    seq![Link::Located, Link::Bare, Link::BoxedLocated, Link::LocatedBoxed, Link::BoxedBare]
}

/// The link that an envelope is recovered from: the first of the first kind
/// that occurs, from the `k`-th kind on.
pub open spec fn recovered_from(chain: Seq<Link>, k: nat) -> Option<int>
    decreases 5 - k,
{
    if k >= 5 {
        None
    } else if first_link(chain, envelope_order()[k as int]) < chain.len() {
        Some(first_link(chain, envelope_order()[k as int]))
    } else {
        recovered_from(chain, k + 1)
    }
}

/// What [`first_link`] finds.
pub proof fn lemma_first_link(chain: Seq<Link>, link: Link)
    ensures
        0 <= first_link(chain, link) <= chain.len(),
        first_link(chain, link) < chain.len() ==> chain[first_link(chain, link)] == link,
        forall|j: int| 0 <= j < first_link(chain, link) ==> chain[j] != link,
    decreases chain.len(),
{
    if chain.len() > 0 && chain[0] != link {
        let rest = chain.drop_first();
        lemma_first_link(rest, link);
        assert forall|j: int| 0 <= j < first_link(chain, link) implies chain[j] != link by {
            if j > 0 {
                assert(chain[j] == rest[j - 1]);
            }
        }
    }
}

/// The first link of a kind, from the start of the chain.
pub fn find_link(chain: &[Link], link: Link) -> (r: Option<usize>)
    ensures
        match r {
            Some(i) => i == first_link(chain@, link) && i < chain@.len(),
            None => first_link(chain@, link) == chain@.len(),
        },
{
    proof {
        lemma_first_link(chain@, link);
    }
    let mut i: usize = 0;
    while i < chain.len()
        invariant
            i <= chain@.len(),
            i <= first_link(chain@, link),
            first_link(chain@, link) < chain@.len() ==> chain@[first_link(chain@, link)] == link,
            forall|j: int| 0 <= j < first_link(chain@, link) ==> chain@[j] != link,
            first_link(chain@, link) <= chain@.len(),
        decreases chain.len() - i,
    {
        if chain[i] == link {
            return Some(i);
        }
        i += 1;
    }
    None
}

/// The link to recover an envelope from: one box layer is tolerated, and a
/// located envelope anywhere in the chain is preferred to a bare one.
pub fn recover_codec_error(chain: &[Link]) -> (r: Option<usize>)
    ensures
        match r {
            Some(i) => recovered_from(chain@, 0) == Some(i as int) && i < chain@.len(),
            None => recovered_from(chain@, 0) is None,
        },
{
    proof {
        reveal_with_fuel(recovered_from, 6);
    }
    if let Some(i) = find_link(chain, Link::Located) {
        return Some(i);
    }
    if let Some(i) = find_link(chain, Link::Bare) {
        return Some(i);
    }
    if let Some(i) = find_link(chain, Link::BoxedLocated) {
        return Some(i);
    }
    if let Some(i) = find_link(chain, Link::LocatedBoxed) {
        return Some(i);
    }
    find_link(chain, Link::BoxedBare)
}

/// A cause is found exactly if some link is one, and what is found is a link
/// that no earlier one precedes.
pub proof fn law_first_cause_is_found<T>(links: Seq<Option<T>>)
    ensures
        first_present(links) is Some <==> exists|i: int|
            0 <= i < links.len() && (#[trigger] links[i]) is Some,
        first_present(links) is Some ==> exists|i: int|
            #![trigger links[i]]
            0 <= i < links.len() && links[i] == first_present(links) && forall|j: int|
                0 <= j < i ==> (#[trigger] links[j]) is None,
    decreases links.len(),
{
    if links.len() > 0 && links[0] is None {
        let rest = links.drop_first();
        law_first_cause_is_found(rest);
        if exists|i: int| 0 <= i < links.len() && (#[trigger] links[i]) is Some {
            let i = choose|i: int| 0 <= i < links.len() && (#[trigger] links[i]) is Some;
            assert(rest[i - 1] is Some);
        }
        if first_present(rest) is Some {
            let i = choose|i: int|
                #![trigger rest[i]]
                0 <= i < rest.len() && rest[i] == first_present(rest) && forall|j: int|
                    0 <= j < i ==> (#[trigger] rest[j]) is None;
            assert(links[i + 1] == first_present(links));
            assert forall|j: int| 0 <= j < i + 1 implies (#[trigger] links[j]) is None by {
                if j > 0 {
                    assert(rest[j - 1] is None);
                }
            }
        }
    } else if links.len() > 0 {
        assert(links[0] == first_present(links));
    }
}

/// An envelope is recovered from every chain that holds one, and from no other;
/// and it is an envelope that is recovered.
pub proof fn law_every_envelope_is_recovered(chain: Seq<Link>)
    ensures
        recovered_from(chain, 0) is Some <==> exists|i: int|
            0 <= i < chain.len() && #[trigger] chain[i] != Link::Other,
        recovered_from(chain, 0) matches Some(i) ==> 0 <= i < chain.len() && chain[i]
            != Link::Other,
{
    reveal_with_fuel(recovered_from, 6);
    lemma_first_link(chain, Link::Located);
    lemma_first_link(chain, Link::Bare);
    lemma_first_link(chain, Link::BoxedLocated);
    lemma_first_link(chain, Link::LocatedBoxed);
    lemma_first_link(chain, Link::BoxedBare);
    assert(envelope_order()[0] == Link::Located);
    if exists|i: int| 0 <= i < chain.len() && #[trigger] chain[i] != Link::Other {
        let i = choose|i: int| 0 <= i < chain.len() && #[trigger] chain[i] != Link::Other;
        assert(first_link(chain, chain[i]) <= i);
    }
}

} // verus!
