//! EXIF orientation, straight from and into a blob.
use crate::exif::edit::orientation_of;
use crate::exif::model::parse_blob;
use crate::exif::retain::oriented_in_place;
use crate::exif::tree::Exif;
use crate::orientation::Orientation;
use vstd::prelude::*;

verus! {

/// The orientation that a blob declares; `None` if it does not parse or
/// declares none.
pub open spec fn blob_orientation(data: Seq<u8>) -> Option<Orientation> {
    match parse_blob(data) {
        Some(x) => orientation_of(x.ifd0, x.order),
        None => None,
    }
}

/// The blob with its orientation tag set to `o`; `None` if it does not parse or
/// has no integer orientation tag.
pub open spec fn blob_oriented(data: Seq<u8>, o: Orientation) -> Option<Seq<u8>> {
    match parse_blob(data) {
        Some(x) => oriented_in_place(data, x, o),
        None => None,
    }
}

/// Read the orientation tag of an EXIF blob, with or without its marker.
pub fn parse_exif_orientation(data: &[u8]) -> (r: Option<Orientation>)
    ensures
        r == blob_orientation(data@),
{
    match Exif::parse(data) {
        Some(exif) => exif.orientation(),
        None => None,
    }
}

/// Rewrite the orientation tag of an EXIF blob in place, leaving the rest byte
/// for byte.
pub fn set_exif_orientation(data: &[u8], value: Orientation) -> (r: Option<Vec<u8>>)
    ensures
        match blob_oriented(data@, value) {
            Some(b) => r matches Some(v) && v@ == b,
            None => r is None,
        },
{
    crate::exif::retain::set_orientation(data, value)
}

/// A blob's orientation is that of its first directory, with or without the
/// marker; what does not parse has none.
pub proof fn law_orientation_of_a_blob(data: Seq<u8>)
    ensures
        parse_blob(data) is None ==> blob_orientation(data) is None,
        parse_blob(data) matches Some(x) ==> blob_orientation(data) == orientation_of(
            x.ifd0,
            x.order,
        ),
        data.len() == 0 || data[0] != 0x45 ==> blob_orientation(
            seq![0x45u8, 0x78, 0x69, 0x66, 0, 0] + data,
        ) == blob_orientation(data),
{
    if data.len() == 0 || data[0] != 0x45 {
        crate::exif::parsed::law_marker_is_optional(data);
    }
}

/// Setting the orientation of a blob is setting it in place, and needs a blob that
/// parses. It keeps the length, and where the value is apart from the header and
/// the table that it is found by, it reads back.
pub proof fn law_set_orientation_of_a_blob(data: Seq<u8>, o: Orientation, j: int)
    ensures
        parse_blob(data) is None ==> blob_oriented(data, o) is None,
        parse_blob(data) matches Some(x) ==> (crate::exif::parsed::comes_first(x.ifd0, 0x0112, j)
            ==> (blob_oriented(data, o) is Some <==> x.ifd0[j].kind == 3 || x.ifd0[j].kind == 4)),
        blob_oriented(data, o) matches Some(b) ==> b.len() == data.len(),
        parse_blob(data) matches Some(x) ==> (crate::exif::parsed::comes_first(x.ifd0, 0x0112, j)
            && (x.ifd0[j].kind == 3 && x.ifd0[j].value.len() >= 2 || x.ifd0[j].kind == 4
            && x.ifd0[j].value.len() >= 4) && x.ifd0[j].value.len() <= 4 ==> (blob_oriented(
            data,
            o,
        ) matches Some(b) && blob_orientation(b) == Some(o))),
{
    if let Some(x) = parse_blob(data) {
        crate::exif::tree::lemma_first_index(x.ifd0, 0x0112);
        crate::exif::retain::lemma_orientation_inside(data);
        crate::exif::retaining::law_in_place_needs_an_integer(data, x, o, j);
        assert(blob_oriented(data, o) matches Some(b) ==> b.len() == data.len()) by {
            reveal(crate::exif::codec::bytes16);
            reveal(crate::exif::codec::bytes32);
        }
        if crate::exif::parsed::comes_first(x.ifd0, 0x0112, j) && (x.ifd0[j].kind == 3
            && x.ifd0[j].value.len() >= 2 || x.ifd0[j].kind == 4 && x.ifd0[j].value.len() >= 4)
            && x.ifd0[j].value.len() <= 4 {
            crate::exif::in_place::law_in_place_reads_back(data, x, x.ifd0[j], o);
        }
    }
}

} // verus!
