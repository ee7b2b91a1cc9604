//! Applying a retention policy to an EXIF blob.
use super::codec::{put16, put32};
use super::edit::{orientation_of, orientation_reconciled, uint_field};
use super::model::{first_with, parse_blob, ExifView};
use super::policy::{ExifPolicy, Retention};
use super::provenance::lemma_parsed_tree;
use super::tags::{TAG_ORIENTATION, TIFF_LONG, TIFF_SHORT};
use super::tree::{lemma_first_index, position, views, Exif};
use super::write::append;
use crate::orientation::Orientation;
use std::borrow::Cow;
use vstd::prelude::*;

verus! {

broadcast use {super::codec::lemma_bytes16_len, super::codec::lemma_bytes32_len};

/// What a policy makes of a blob.
pub enum Outcome {
    /// Nothing is kept.
    Dropped,
    /// The blob passes through.
    Unchanged,
    /// Another blob takes its place.
    Rewritten(Seq<u8>),
}

/// `data` with `bytes` in place of what was at `at`.
pub open spec fn overwritten(data: Seq<u8>, at: int, bytes: Seq<u8>) -> Seq<u8> {
    data.take(at) + bytes + data.skip(at + bytes.len())
}

/// Where in the blob of tree `x` the value of its first orientation entry is.
pub open spec fn orientation_offset(x: ExifView) -> int {
    (if x.had_prefix {
        6int
    } else {
        0
    }) + (first_with(x.ifd0, TAG_ORIENTATION)->0.origin()->0)
}

/// The blob `data` of tree `x` with the value of its first orientation entry
/// replaced; `None` if there is no such entry of integer type.
pub open spec fn oriented_in_place(data: Seq<u8>, x: ExifView, o: Orientation) -> Option<Seq<u8>> {
    match first_with(x.ifd0, TAG_ORIENTATION) {
        Some(e) => match uint_field(e.kind, o.code(), x.order) {
            Some(value) => Some(overwritten(data, orientation_offset(x), value)),
            None => None,
        },
        None => None,
    }
}

/// The largest rewrite of a blob of `n` bytes that is accepted.
pub open spec fn rewrite_cap(n: int) -> int {
    if 2 * n + 1024 <= u32::MAX {
        2 * n + 1024
    } else {
        u32::MAX as int
    }
}

impl ExifView {
    /// The tree pruned by `policy`, with its orientation tag reconciled to
    /// `want`.
    pub open spec fn prepared(self, policy: ExifPolicy, want: Option<Orientation>) -> ExifView {
        let p = self.pruned(policy);
        match want {
            Some(o) => ExifView { ifd0: orientation_reconciled(p.ifd0, o, p.order), ..p },
            None => p,
        }
    }
}

/// What a policy that keeps some categories and discards others makes of a blob.
pub open spec fn stripped(src: Seq<u8>, policy: ExifPolicy, want: Option<Orientation>) -> Outcome {
    if src.len() > u32::MAX {
        Outcome::Dropped
    } else {
        match parse_blob(src) {
            None => Outcome::Dropped,
            Some(x) => {
                let p = x.prepared(policy, want);
                if p.is_bare() || p.blob_len() > rewrite_cap(src.len() as int) {
                    Outcome::Dropped
                } else {
                    Outcome::Rewritten(p.blob_bytes())
                }
            },
        }
    }
}

/// What keeping everything makes of a blob whose orientation is to be `o`.
pub open spec fn reoriented(src: Seq<u8>, o: Orientation) -> Outcome {
    if src.len() > u32::MAX {
        Outcome::Unchanged
    } else {
        match parse_blob(src) {
            None => Outcome::Unchanged,
            Some(x) => if orientation_of(x.ifd0, x.order) == Some(o) {
                Outcome::Unchanged
            } else {
                match oriented_in_place(src, x, o) {
                    Some(b) => Outcome::Rewritten(b),
                    None => Outcome::Unchanged,
                }
            },
        }
    }
}

/// What `policy` makes of a blob whose orientation tag, if `want` names one, is
/// to agree with it.
pub open spec fn retained(src: Seq<u8>, policy: ExifPolicy, want: Option<Orientation>) -> Outcome {
    if policy == ExifPolicy::uniform(Retention::Discard) {
        Outcome::Dropped
    } else if policy == ExifPolicy::uniform(Retention::Keep) {
        match want {
            None => Outcome::Unchanged,
            Some(o) => reoriented(src, o),
        }
    } else {
        stripped(src, policy, want)
    }
}

/// The result `r` carries out `outcome` on `src`: a passed-through blob is
/// borrowed, a rewritten one owned.
pub open spec fn carries_out(r: Option<Cow<'_, [u8]>>, src: Seq<u8>, outcome: Outcome) -> bool {
    match outcome {
        Outcome::Dropped => r is None,
        Outcome::Unchanged => r matches Some(c) && c is Borrowed && c@ == src,
        Outcome::Rewritten(b) => r matches Some(c) && c is Owned && c@ == b,
    }
}

/// In a parsed tree the orientation value lies inside the blob.
pub proof fn lemma_orientation_inside(data: Seq<u8>)
    ensures
        parse_blob(data) matches Some(x) ==> first_with(x.ifd0, TAG_ORIENTATION) is Some ==> 0
            <= orientation_offset(x) && orientation_offset(x) + 4 <= data.len(),
{
    lemma_parsed_tree(data);
    if let Some(x) = parse_blob(data) {
        lemma_first_index(x.ifd0, TAG_ORIENTATION);
    }
}

/// Rewrite the orientation value of a parsed blob in place; everything else
/// stays byte for byte. `None` without an integer orientation tag.
fn set_orientation_with(data: &[u8], exif: &Exif<'_>, value: Orientation) -> (r: Option<Vec<u8>>)
    requires
        parse_blob(data@) == Some(exif@),
    ensures
        r is Some <==> oriented_in_place(data@, exif@, value) is Some,
        r matches Some(b) ==> oriented_in_place(data@, exif@, value) == Some(b@),
{
    let pos: usize = position(&exif.ifd0, TAG_ORIENTATION);
    if pos >= exif.ifd0.len() {
        return None;
    }
    proof {
        lemma_parsed_tree(data@);
        lemma_orientation_inside(data@);
        assert(views(exif.ifd0@)[pos as int] == exif.ifd0@[pos as int]@);
    }
    let kind: u16 = exif.ifd0[pos].kind;
    let mut field: Vec<u8> = Vec::new();
    if kind == TIFF_SHORT {
        put16(&mut field, value.to_exif() as u16, exif.order);
    } else if kind == TIFF_LONG {
        put32(&mut field, value.to_exif() as u32, exif.order);
    } else {
        return None;
    }
    assert(uint_field(kind, value.code(), exif.order) == Some(field@)) by {
        if kind == TIFF_SHORT {
            assert(field@ =~= super::codec::bytes16(value.code() as u16, exif.order));
        } else {
            assert(field@ =~= super::codec::bytes32(value.code() as u32, exif.order));
        }
    }
    let n: usize = data.len();
    let at: usize = if exif.had_prefix {
        6 + exif.ifd0[pos].value_offset
    } else {
        exif.ifd0[pos].value_offset
    };
    let mut out: Vec<u8> = vstd::slice::slice_to_vec(vstd::slice::slice_subrange(data, 0, at));
    append(&mut out, field.as_slice());
    append(&mut out, vstd::slice::slice_subrange(data, at + field.len(), n));
    assert(out@ =~= overwritten(data@, at as int, field@));
    Some(out)
}

/// Rewrite the orientation tag of a blob in place, leaving the rest byte for
/// byte. `None` if the blob does not parse or has no integer orientation tag.
pub fn set_orientation(data: &[u8], value: Orientation) -> (r: Option<Vec<u8>>)
    ensures
        match parse_blob(data@) {
            None => r is None,
            Some(x) => match oriented_in_place(data@, x, value) {
                Some(b) => r matches Some(out) && out@ == b,
                None => r is None,
            },
        },
{
    match Exif::parse(data) {
        Some(exif) => set_orientation_with(data, &exif, value),
        None => None,
    }
}

/// Apply a policy to an EXIF blob.
///
/// Keeping everything passes the blob through, discarding everything drops it.
/// Any other policy rewrites it, or drops it when nothing is left, when it
/// cannot be parsed, or when the rewrite would outgrow its source: what cannot
/// be stripped reliably is not kept.
pub fn retain<'a>(src: &'a [u8], policy: &ExifPolicy) -> (r: Option<Cow<'a, [u8]>>)
    ensures
        carries_out(r, src@, retained(src@, *policy, None)),
{
    retain_reconciled(src, policy, None)
}

/// [`retain`], which also makes the orientation tag agree with `want`.
pub fn retain_reconciled<'a>(
    src: &'a [u8],
    policy: &ExifPolicy,
    want: Option<Orientation>,
) -> (r: Option<Cow<'a, [u8]>>)
    ensures
        carries_out(r, src@, retained(src@, *policy, want)),
{
    if policy.discards_everything() {
        None
    } else if policy.keeps_everything() {
        match want {
            Some(o) => reorient(src, o),
            None => Some(Cow::Borrowed(src)),
        }
    } else {
        strip(src, policy, want)
    }
}

/// Keep everything, but for the orientation value.
fn reorient<'a>(src: &'a [u8], o: Orientation) -> (r: Option<Cow<'a, [u8]>>)
    ensures
        carries_out(r, src@, reoriented(src@, o)),
{
    if src.len() as u64 > 0xFFFF_FFFF {
        return Some(Cow::Borrowed(src));
    }
    if let Some(exif) = Exif::parse(src) {
        let same: bool = match exif.orientation() {
            Some(cur) => cur == o,
            None => false,
        };
        if !same {
            if let Some(v) = set_orientation_with(src, &exif, o) {
                return Some(Cow::Owned(v));
            }
        }
    }
    Some(Cow::Borrowed(src))
}

/// Prune, reconcile the orientation tag, and serialize once.
fn strip<'a>(src: &'a [u8], policy: &ExifPolicy, want: Option<Orientation>) -> (r: Option<
    Cow<'a, [u8]>,
>)
    ensures
        carries_out(r, src@, stripped(src@, *policy, want)),
{
    let n: usize = src.len();
    if n as u64 > 0xFFFF_FFFF {
        return None;
    }
    let exif: Exif<'a> = match Exif::parse(src) {
        Some(x) => x,
        None => {
            return None;
        },
    };
    let mut pruned: Exif<'a> = exif.filtered(policy);
    if let Some(o) = want {
        pruned.set_orientation_tag(o);
    }
    assert(pruned@ == exif@.prepared(*policy, want));
    serialize_within(&pruned, n)
}

/// Serialize a tree that has something to write and does not outgrow a source
/// of `n` bytes.
fn serialize_within<'a>(tree: &Exif<'_>, n: usize) -> (r: Option<Cow<'a, [u8]>>)
    ensures
        r is None <==> tree@.is_bare() || tree@.blob_len() > rewrite_cap(n as int),
        r matches Some(c) ==> c is Owned && c@ == tree@.blob_bytes(),
{
    assert(tree@.ifd0.len() == tree.ifd0@.len());
    if tree.ifd0.len() == 0 && tree.exif_ifd.is_none() && tree.gps_ifd.is_none()
        && tree.ifd1.is_none() {
        return None;
    }
    let cap: u64 = if n as u64 <= 0x7FFF_FDFF {
        2 * (n as u64) + 1024
    } else {
        0xFFFF_FFFF
    };
    assert(cap == rewrite_cap(n as int));
    match tree.checked_serialized_len() {
        Some(len) => if len as u64 > cap {
            None
        } else {
            Some(Cow::Owned(tree.to_bytes()))
        },
        None => None,
    }
}

} // verus!
