//! Tag numbers, field types and the category a tag belongs to.
//!
//! Names follow TIFF 6.0 / EXIF (CIPA DC-008).
use vstd::prelude::*;

verus! {

/// Camera maker.
pub const TAG_MAKE: u16 = 0x010F;
/// Camera model.
pub const TAG_MODEL: u16 = 0x0110;
/// Offsets of an uncompressed image's strips.
pub const TAG_STRIP_OFFSETS: u16 = 0x0111;
/// Image orientation.
pub const TAG_ORIENTATION: u16 = 0x0112;
/// Byte counts of an uncompressed image's strips.
pub const TAG_STRIP_BYTE_COUNTS: u16 = 0x0117;
/// Writing software.
pub const TAG_SOFTWARE: u16 = 0x0131;
/// Modification time.
pub const TAG_DATETIME: u16 = 0x0132;
/// Creator.
pub const TAG_ARTIST: u16 = 0x013B;
/// Host computer.
pub const TAG_HOST_COMPUTER: u16 = 0x013C;
/// Offsets of an uncompressed image's tiles.
pub const TAG_TILE_OFFSETS: u16 = 0x0144;
/// Byte counts of an uncompressed image's tiles.
pub const TAG_TILE_BYTE_COUNTS: u16 = 0x0145;
/// Offsets of nested directories, which the tree does not model.
pub const TAG_SUBIFDS: u16 = 0x014A;
/// Offset of the JPEG thumbnail.
pub const TAG_THUMB_OFFSET: u16 = 0x0201;
/// Length of the JPEG thumbnail.
pub const TAG_THUMB_LENGTH: u16 = 0x0202;
/// Rights notice.
pub const TAG_COPYRIGHT: u16 = 0x8298;
/// Pointer to the Exif directory.
pub const TAG_EXIF_IFD: u16 = 0x8769;
/// Pointer to the GPS directory.
pub const TAG_GPS_IFD: u16 = 0x8825;
/// Capture time.
pub const TAG_DATETIME_ORIGINAL: u16 = 0x9003;
/// Digitization time.
pub const TAG_DATETIME_DIGITIZED: u16 = 0x9004;
/// Time zone of the modification time.
pub const TAG_OFFSET_TIME: u16 = 0x9010;
/// Time zone of the capture time.
pub const TAG_OFFSET_TIME_ORIGINAL: u16 = 0x9011;
/// Time zone of the digitization time.
pub const TAG_OFFSET_TIME_DIGITIZED: u16 = 0x9012;
/// Opaque maker data.
pub const TAG_MAKER_NOTE: u16 = 0x927C;
/// Fraction of the modification time.
pub const TAG_SUBSEC_TIME: u16 = 0x9290;
/// Fraction of the capture time.
pub const TAG_SUBSEC_TIME_ORIGINAL: u16 = 0x9291;
/// Fraction of the digitization time.
pub const TAG_SUBSEC_TIME_DIGITIZED: u16 = 0x9292;
/// Pointer to the interoperability directory, which the tree does not model.
pub const TAG_INTEROP_IFD: u16 = 0xA005;
/// Image identifier.
pub const TAG_IMAGE_UNIQUE_ID: u16 = 0xA420;
/// Camera owner.
pub const TAG_CAMERA_OWNER_NAME: u16 = 0xA430;
/// Body serial number.
pub const TAG_BODY_SERIAL_NUMBER: u16 = 0xA431;
/// Lens specification.
pub const TAG_LENS_SPECIFICATION: u16 = 0xA432;
/// Lens maker.
pub const TAG_LENS_MAKE: u16 = 0xA433;
/// Lens model.
pub const TAG_LENS_MODEL: u16 = 0xA434;
/// Lens serial number.
pub const TAG_LENS_SERIAL_NUMBER: u16 = 0xA435;
/// Photographer.
pub const TAG_PHOTOGRAPHER: u16 = 0xA437;
/// Image editor.
pub const TAG_IMAGE_EDITOR: u16 = 0xA438;
/// Camera firmware.
pub const TAG_CAMERA_FIRMWARE: u16 = 0xA439;
/// Raw developing software.
pub const TAG_RAW_DEVELOPING_SOFTWARE: u16 = 0xA43A;
/// Image editing software.
pub const TAG_IMAGE_EDITING_SOFTWARE: u16 = 0xA43B;
/// Metadata editing software.
pub const TAG_METADATA_EDITING_SOFTWARE: u16 = 0xA43C;

/// NUL-terminated 7-bit text.
pub const TIFF_ASCII: u16 = 2;
/// 16-bit unsigned integer.
pub const TIFF_SHORT: u16 = 3;
/// 32-bit unsigned integer.
pub const TIFF_LONG: u16 = 4;
/// NUL-terminated UTF-8 text.
pub const TIFF_UTF8: u16 = 129;

/// Size of the TIFF header: byte order, magic and the first directory's offset.
pub const TIFF_HEADER_SIZE: usize = 8;
/// Directories that declare more entries are rejected.
pub const MAX_IFD_ENTRIES: u16 = 1000;

/// What a tag says about the image, as far as a retention policy cares.
#[derive(Debug, Clone, Copy, PartialEq, Eq, Structural)]
pub enum Category {
    /// The orientation tag.
    Orientation,
    /// Copyright, artist and the other creator / owner names.
    Rights,
    /// Timestamps with their fractions and time zones.
    Datetimes,
    /// Device and software identity.
    Camera,
    /// Everything else.
    Other,
}

/// Who made the image or holds rights in it.
pub open spec fn is_rights_tag(tag: u16) -> bool {
    ||| tag == TAG_COPYRIGHT
    ||| tag == TAG_ARTIST
    ||| tag == TAG_CAMERA_OWNER_NAME
    ||| tag == TAG_PHOTOGRAPHER
    ||| tag == TAG_IMAGE_EDITOR
}

/// When the image was taken, digitized or changed.
pub open spec fn is_datetime_tag(tag: u16) -> bool {
    ||| tag == TAG_DATETIME
    ||| tag == TAG_DATETIME_ORIGINAL
    ||| tag == TAG_DATETIME_DIGITIZED
    ||| TAG_OFFSET_TIME <= tag <= TAG_OFFSET_TIME_DIGITIZED
    ||| TAG_SUBSEC_TIME <= tag <= TAG_SUBSEC_TIME_DIGITIZED
}

/// Which device or software made the image.
pub open spec fn is_camera_tag(tag: u16) -> bool {
    ||| tag == TAG_MAKE
    ||| tag == TAG_MODEL
    ||| tag == TAG_SOFTWARE
    ||| tag == TAG_HOST_COMPUTER
    ||| tag == TAG_MAKER_NOTE
    ||| tag == TAG_IMAGE_UNIQUE_ID
    ||| TAG_BODY_SERIAL_NUMBER <= tag <= TAG_LENS_SERIAL_NUMBER
    ||| TAG_CAMERA_FIRMWARE <= tag <= TAG_METADATA_EDITING_SOFTWARE
}

/// The category of `tag`.
pub open spec fn category_of(tag: u16) -> Category {
    if tag == TAG_ORIENTATION {
        Category::Orientation
    } else if is_rights_tag(tag) {
        Category::Rights
    } else if is_datetime_tag(tag) {
        Category::Datetimes
    } else if is_camera_tag(tag) {
        Category::Camera
    } else {
        Category::Other
    }
}

/// The category of `tag`.
pub fn classify(tag: u16) -> (c: Category)
    ensures
        c == category_of(tag),
{
    if tag == TAG_ORIENTATION {
        Category::Orientation
    } else if tag == TAG_COPYRIGHT || tag == TAG_ARTIST || tag == TAG_CAMERA_OWNER_NAME || tag
        == TAG_PHOTOGRAPHER || tag == TAG_IMAGE_EDITOR {
        Category::Rights
    } else if tag == TAG_DATETIME || tag == TAG_DATETIME_ORIGINAL || tag == TAG_DATETIME_DIGITIZED
        || (TAG_OFFSET_TIME <= tag && tag <= TAG_OFFSET_TIME_DIGITIZED) || (TAG_SUBSEC_TIME <= tag
        && tag <= TAG_SUBSEC_TIME_DIGITIZED) {
        Category::Datetimes
    } else if tag == TAG_MAKE || tag == TAG_MODEL || tag == TAG_SOFTWARE || tag == TAG_HOST_COMPUTER
        || tag == TAG_MAKER_NOTE || tag == TAG_IMAGE_UNIQUE_ID || (TAG_BODY_SERIAL_NUMBER <= tag
        && tag <= TAG_LENS_SERIAL_NUMBER) || (TAG_CAMERA_FIRMWARE <= tag && tag
        <= TAG_METADATA_EDITING_SOFTWARE) {
        Category::Camera
    } else {
        Category::Other
    }
}

/// Tags whose value locates bytes elsewhere in the file, together with the
/// opaque maker note. A rewrite moves those bytes, so it cannot carry the tag.
pub open spec fn is_offset_bearing(tag: u16) -> bool {
    ||| tag == TAG_SUBIFDS
    ||| tag == TAG_EXIF_IFD
    ||| tag == TAG_GPS_IFD
    ||| tag == TAG_INTEROP_IFD
    ||| tag == TAG_THUMB_OFFSET
    ||| tag == TAG_THUMB_LENGTH
    ||| tag == TAG_STRIP_OFFSETS
    ||| tag == TAG_STRIP_BYTE_COUNTS
    ||| tag == TAG_TILE_OFFSETS
    ||| tag == TAG_TILE_BYTE_COUNTS
    ||| tag == TAG_MAKER_NOTE
}

/// Whether a rewrite has to drop `tag`.
pub fn offset_bearing(tag: u16) -> (b: bool)
    ensures
        b == is_offset_bearing(tag),
{
    tag == TAG_SUBIFDS || tag == TAG_EXIF_IFD || tag == TAG_GPS_IFD || tag == TAG_INTEROP_IFD || tag
        == TAG_THUMB_OFFSET || tag == TAG_THUMB_LENGTH || tag == TAG_STRIP_OFFSETS || tag
        == TAG_STRIP_BYTE_COUNTS || tag == TAG_TILE_OFFSETS || tag == TAG_TILE_BYTE_COUNTS || tag
        == TAG_MAKER_NOTE
}

/// Bytes per element of a field type, for the types of TIFF 6.0 and Exif 3.0.
pub open spec fn element_size(kind: u16) -> Option<nat> {
    if kind == 1 || kind == 2 || kind == 6 || kind == 7 || kind == 129 {
        Some(1)
    } else if kind == 3 || kind == 8 {
        Some(2)
    } else if kind == 4 || kind == 9 || kind == 11 || kind == 13 {
        Some(4)
    } else if kind == 5 || kind == 10 || kind == 12 {
        Some(8)
    } else {
        None
    }
}

/// Bytes per element of a field type; `None` for an unknown type.
pub fn type_size(kind: u16) -> (r: Option<usize>)
    ensures
        r is Some <==> element_size(kind) is Some,
        r matches Some(n) ==> element_size(kind) == Some(n as nat) && 1 <= n <= 8,
{
    if kind == 1 || kind == 2 || kind == 6 || kind == 7 || kind == 129 {
        Some(1)
    } else if kind == 3 || kind == 8 {
        Some(2)
    } else if kind == 4 || kind == 9 || kind == 11 || kind == 13 {
        Some(4)
    } else if kind == 5 || kind == 10 || kind == 12 {
        Some(8)
    } else {
        None
    }
}

// ── Laws ────────────────────────────────────────────────────────────────────

/// Orientation is tag 0x0112 alone. Rights are Copyright, Artist,
/// CameraOwnerName, Photographer and ImageEditor, and nothing else.
pub proof fn law_rights_tags(tag: u16)
    ensures
        category_of(tag) == Category::Orientation <==> tag == 0x0112,
        category_of(tag) == Category::Rights <==> tag == 0x8298 || tag == 0x013B || tag == 0xA430
            || tag == 0xA437 || tag == 0xA438,
{
}

/// Timestamps are DateTime, DateTimeOriginal, DateTimeDigitized, their time zones
/// and their fractions, and nothing else.
pub proof fn law_datetime_tags(tag: u16)
    ensures
        category_of(tag) == Category::Datetimes <==> tag == 0x0132 || tag == 0x9003 || tag == 0x9004
            || tag == 0x9010 || tag == 0x9011 || tag == 0x9012 || tag == 0x9290 || tag == 0x9291
            || tag == 0x9292,
{
}

/// Make, Model, Software, HostComputer, MakerNote, ImageUniqueID, the body and
/// lens identities and the firmware and software names tell of the camera, and
/// nothing else does.
pub proof fn law_camera_tags(tag: u16)
    ensures
        category_of(tag) == Category::Camera <==> tag == 0x010F || tag == 0x0110 || tag == 0x0131
            || tag == 0x013C || tag == 0x927C || tag == 0xA420 || tag == 0xA431 || tag == 0xA432
            || tag == 0xA433 || tag == 0xA434 || tag == 0xA435 || tag == 0xA439 || tag == 0xA43A
            || tag == 0xA43B || tag == 0xA43C,
{
}

/// A rewrite drops the tags that locate bytes in the file: SubIFDs, the pointers
/// to the Exif, GPS and interoperability directories, the thumbnail's place and
/// length, strip and tile offsets and byte counts; and the maker note. It drops
/// no other.
pub proof fn law_offset_bearing_tags(tag: u16)
    ensures
        is_offset_bearing(tag) <==> tag == 0x014A || tag == 0x8769 || tag == 0x8825 || tag == 0xA005
            || tag == 0x0201 || tag == 0x0202 || tag == 0x0111 || tag == 0x0117 || tag == 0x0144
            || tag == 0x0145 || tag == 0x927C,
{
}

} // verus!
