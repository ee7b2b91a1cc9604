//! EXIF trees: parsing, pruning, editing and serialization.
use std::borrow::Cow;
use zencodec::exif::tags::{
    TAG_ARTIST, TAG_BODY_SERIAL_NUMBER, TAG_COPYRIGHT, TAG_DATETIME_ORIGINAL, TAG_EXIF_IFD,
    TAG_GPS_IFD, TAG_MAKE, TAG_MAKER_NOTE, TAG_ORIENTATION, TAG_PHOTOGRAPHER, TAG_SUBIFDS,
    TAG_THUMB_LENGTH, TAG_THUMB_OFFSET, TIFF_ASCII, TIFF_LONG, TIFF_SHORT, TIFF_UTF8,
};
use zencodec::exif::{
    retain, retain_reconciled, set_orientation, ByteOrder, Entry, Exif, ExifPolicy, Retention,
    TextEncoding,
};
use zencodec::Orientation;

const TIFF_BYTE: u16 = 1;
const TIFF_UNDEFINED: u16 = 7;

fn e(tag: u16, kind: u16, count: u32, value: &[u8]) -> Entry<'_> {
    Entry {
        tag,
        kind,
        count,
        value: Cow::Borrowed(value),
        value_offset: 0,
    }
}

fn sample(order: ByteOrder, had_prefix: bool) -> Vec<u8> {
    let ori: Vec<u8> = match order {
        ByteOrder::Little => 6u16.to_le_bytes().to_vec(),
        ByteOrder::Big => 6u16.to_be_bytes().to_vec(),
    };
    let exif = Exif {
        order,
        had_prefix,
        ifd0: vec![
            e(TAG_MAKE, TIFF_ASCII, 4, b"Cam\0"),         // Make (camera)
            e(TAG_ORIENTATION, TIFF_SHORT, 1, &ori),      // Orientation=Rotate90
            e(TAG_COPYRIGHT, TIFF_ASCII, 7, b"(c) Me\0"), // Copyright (out-of-line)
        ],
        exif_ifd: Some(vec![e(TAG_DATETIME_ORIGINAL, TIFF_ASCII, 5, b"2020\0")]),
        gps_ifd: Some(vec![e(0x0001, TIFF_ASCII, 2, b"N\0")]), // GPSLatitudeRef
        ifd1: Some(vec![]),
        thumbnail: Some(&[0xFF, 0xD8, 0xFF, 0xD9]),
        text_encoding: TextEncoding::Ascii,
    };
    exif.to_bytes()
}

#[test]
fn round_trip_full_tree_little_endian() {
    let bytes = sample(ByteOrder::Little, false);
    let x = Exif::parse(&bytes).expect("parses");
    assert_eq!(x.order, ByteOrder::Little);
    assert_eq!(x.orientation(), Some(Orientation::Rotate90));
    assert_eq!(x.copyright().unwrap(), "(c) Me");
    assert!(x.has_gps());
    assert!(x.has_thumbnail());
    let bytes2 = x.to_bytes();
    let x2 = Exif::parse(&bytes2).expect("re-parses");
    assert_eq!(x2.orientation(), Some(Orientation::Rotate90));
    assert_eq!(x2.copyright().unwrap(), "(c) Me");
    assert!(x2.has_gps() && x2.has_thumbnail());
}

#[test]
fn round_trip_big_endian() {
    let bytes = sample(ByteOrder::Big, false);
    let x = Exif::parse(&bytes).expect("parses");
    assert_eq!(x.order, ByteOrder::Big);
    assert_eq!(x.orientation(), Some(Orientation::Rotate90));
    assert_eq!(x.copyright().unwrap(), "(c) Me");
    assert!(x.has_gps() && x.has_thumbnail());
}

#[test]
fn round_trip_with_exif_prefix_and_subifds() {
    let bytes = sample(ByteOrder::Little, true);
    assert_eq!(&bytes[..6], b"Exif\0\0");
    let x = Exif::parse(&bytes).expect("parses");
    assert_eq!(x.orientation(), Some(Orientation::Rotate90));
    assert_eq!(x.copyright().unwrap(), "(c) Me");
    assert!(x.has_gps());
    assert!(x.has_thumbnail());
}

#[test]
fn drop_gps_keeps_everything_else() {
    let bytes = sample(ByteOrder::Little, false);
    let x = Exif::parse(&bytes).unwrap();
    let p = ExifPolicy::KEEP_ALL().with_gps(Retention::Discard);
    let out = x.filtered(&p).to_bytes();
    let y = Exif::parse(&out).unwrap();
    assert!(!y.has_gps());
    assert!(y.has_thumbnail());
    assert_eq!(y.orientation(), Some(Orientation::Rotate90));
    assert_eq!(y.copyright().unwrap(), "(c) Me");
}

#[test]
fn drop_thumbnail_keeps_everything_else() {
    let bytes = sample(ByteOrder::Little, false);
    let x = Exif::parse(&bytes).unwrap();
    let p = ExifPolicy::KEEP_ALL().with_thumbnail(Retention::Discard);
    let out = x.filtered(&p).to_bytes();
    let y = Exif::parse(&out).unwrap();
    assert!(!y.has_thumbnail());
    assert!(y.has_gps());
    assert_eq!(y.orientation(), Some(Orientation::Rotate90));
    assert_eq!(y.copyright().unwrap(), "(c) Me");
}

#[test]
fn attributed_orientation_drops_camera_datetime_gps_thumbnail() {
    let bytes = sample(ByteOrder::Little, false);
    let x = Exif::parse(&bytes).unwrap();
    let out = x.filtered(&ExifPolicy::ATTRIBUTED_ORIENTATION()).to_bytes();
    let y = Exif::parse(&out).unwrap();
    assert_eq!(y.orientation(), Some(Orientation::Rotate90));
    assert_eq!(y.copyright().unwrap(), "(c) Me");
    assert!(!y.has_gps());
    assert!(!y.has_thumbnail());
    assert!(!out.windows(2).any(|w| w == TAG_MAKE.to_le_bytes()));
    assert!(
        !out.windows(2)
            .any(|w| w == TAG_DATETIME_ORIGINAL.to_le_bytes())
    );
}

#[test]
fn retain_cow_behaviour() {
    let bytes = sample(ByteOrder::Little, false);
    assert!(matches!(
        retain(&bytes, &ExifPolicy::KEEP_ALL()),
        Some(Cow::Borrowed(_))
    ));
    let p = ExifPolicy::KEEP_ALL().with_gps(Retention::Discard);
    assert!(matches!(retain(&bytes, &p), Some(Cow::Owned(_))));
    assert!(retain(&bytes, &ExifPolicy::DISCARD_ALL()).is_none());
}

#[test]
fn out_of_line_copyright_relocates_correctly() {
    let long = b"Copyright 2026 Lilith, all rights reserved worldwide.\0";
    let exif = Exif {
        order: ByteOrder::Little,
        had_prefix: false,
        ifd0: vec![
            e(0x010F, 2, 4, b"Cam\0"),
            e(TAG_COPYRIGHT, 2, long.len() as u32, long),
        ],
        exif_ifd: None,
        gps_ifd: None,
        ifd1: None,
        thumbnail: None,
        text_encoding: TextEncoding::Ascii,
    };
    let pruned = exif.filtered(&ExifPolicy::KEEP_ALL().with_camera(Retention::Discard));
    let out = pruned.to_bytes();
    let y = Exif::parse(&out).unwrap();
    assert_eq!(
        y.copyright().unwrap(),
        "Copyright 2026 Lilith, all rights reserved worldwide."
    );
}

#[test]
fn malformed_inputs_return_none() {
    assert!(Exif::parse(b"").is_none());
    assert!(Exif::parse(b"garbage").is_none());
    assert!(Exif::parse(&[0u8; 7]).is_none());
    let mut bad = b"II".to_vec();
    bad.extend_from_slice(&42u16.to_le_bytes());
    bad.extend_from_slice(&9999u32.to_le_bytes());
    assert!(Exif::parse(&bad).is_none());
}

#[test]
fn excessive_entry_count_rejected() {
    let mut bad = b"II".to_vec();
    bad.extend_from_slice(&42u16.to_le_bytes());
    bad.extend_from_slice(&8u32.to_le_bytes());
    bad.extend_from_slice(&60000u16.to_le_bytes()); // > MAX_IFD_ENTRIES
    assert!(Exif::parse(&bad).is_none());
}

fn le_ifd0(entries: &[[u8; 12]], next: u32, tail: &[u8]) -> Vec<u8> {
    let mut v = vec![b'I', b'I', 0x2A, 0x00];
    v.extend_from_slice(&8u32.to_le_bytes());
    v.extend_from_slice(&(entries.len() as u16).to_le_bytes());
    for e in entries {
        v.extend_from_slice(e);
    }
    v.extend_from_slice(&next.to_le_bytes());
    v.extend_from_slice(tail);
    v
}

fn entry_inline(tag: u16, kind: u16, count: u32, val: [u8; 4]) -> [u8; 12] {
    let mut e = [0u8; 12];
    e[0..2].copy_from_slice(&tag.to_le_bytes());
    e[2..4].copy_from_slice(&kind.to_le_bytes());
    e[4..8].copy_from_slice(&count.to_le_bytes());
    e[8..12].copy_from_slice(&val);
    e
}

fn entry_offset(tag: u16, kind: u16, count: u32, offset: u32) -> [u8; 12] {
    entry_inline(tag, kind, count, offset.to_le_bytes())
}

#[test]
fn orientation_as_rational_is_rejected() {
    let e = entry_offset(TAG_ORIENTATION, 5, 1, 26); // 8-byte value in tail
    let blob = le_ifd0(&[e], 0, &[1, 0, 0, 0, 1, 0, 0, 0]);
    let x = Exif::parse(&blob).expect("parses");
    assert_eq!(x.orientation(), None);
}

#[test]
fn ascii_no_nul_terminator_uses_whole_value() {
    let e = entry_inline(TAG_COPYRIGHT, TIFF_ASCII, 4, *b"abcd"); // no NUL
    let blob = le_ifd0(&[e], 0, &[]);
    assert_eq!(Exif::parse(&blob).unwrap().copyright().unwrap(), "abcd");
}

#[test]
fn ascii_embedded_nul_truncates() {
    let e = entry_offset(TAG_COPYRIGHT, TIFF_ASCII, 6, 26);
    let blob = le_ifd0(&[e], 0, b"ab\0cd\0");
    assert_eq!(Exif::parse(&blob).unwrap().copyright().unwrap(), "ab");
}

#[test]
fn ascii_leading_nul_is_none() {
    let e = entry_inline(TAG_COPYRIGHT, TIFF_ASCII, 1, [0, 0, 0, 0]);
    let blob = le_ifd0(&[e], 0, &[]);
    assert!(Exif::parse(&blob).unwrap().copyright().is_none());
}

#[test]
fn latin1_copyright_decodes_lossy() {
    let e = entry_offset(TAG_COPYRIGHT, TIFF_ASCII, 5, 26);
    let blob = le_ifd0(&[e], 0, b"\xA9 Me\0");
    assert_eq!(
        Exif::parse(&blob).unwrap().copyright().unwrap(),
        "\u{FFFD} Me"
    );
}

#[test]
fn utf8_copyright_decodes_borrowed() {
    let e = entry_offset(TAG_COPYRIGHT, TIFF_ASCII, 6, 26);
    let blob = le_ifd0(&[e], 0, b"\xC2\xA9 Me\0");
    let x = Exif::parse(&blob).unwrap();
    assert_eq!(x.copyright().unwrap(), "© Me");
    assert!(matches!(x.copyright().unwrap(), Cow::Borrowed(_)));
}

#[test]
fn copyright_wrong_type_is_ignored() {
    let e = entry_inline(TAG_COPYRIGHT, TIFF_SHORT, 1, [6, 0, 0, 0]);
    let blob = le_ifd0(&[e], 0, &[]);
    assert!(Exif::parse(&blob).unwrap().copyright().is_none());
}

#[test]
fn count_type_size_overflow_entry_skipped_others_survive() {
    let ori = entry_inline(TAG_ORIENTATION, TIFF_SHORT, 1, [6, 0, 0, 0]);
    let bad = entry_offset(0x0111, 5, 0x8000_0000, 100); // huge RATIONAL
    let blob = le_ifd0(&[ori, bad], 0, &[]);
    let x = Exif::parse(&blob).expect("salvages the good entry");
    assert_eq!(x.orientation(), Some(Orientation::Rotate90));
}

#[test]
fn unknown_tiff_type_entry_skipped() {
    let ori = entry_inline(TAG_ORIENTATION, TIFF_SHORT, 1, [6, 0, 0, 0]);
    let weird = entry_inline(0x9999, 99, 1, [1, 2, 3, 4]);
    let blob = le_ifd0(&[ori, weird], 0, &[]);
    let x = Exif::parse(&blob).expect("salvages the good entry");
    assert_eq!(x.orientation(), Some(Orientation::Rotate90));
}

#[test]
fn truncated_entry_table_salvages_prior_entries() {
    let mut v = vec![b'I', b'I', 0x2A, 0x00];
    v.extend_from_slice(&8u32.to_le_bytes());
    v.extend_from_slice(&2u16.to_le_bytes()); // claims 2 entries
    v.extend_from_slice(&entry_inline(TAG_ORIENTATION, TIFF_SHORT, 1, [6, 0, 0, 0]));
    v.extend_from_slice(&[0xAA, 0xBB]); // truncated 2nd entry (only 2 of 12 bytes)
    let x = Exif::parse(&v).expect("salvages the readable entry");
    assert_eq!(x.orientation(), Some(Orientation::Rotate90));
}

#[test]
fn unparseable_exif_under_stripping_policy_drops_fail_safe() {
    assert!(
        retain(
            b"not a valid tiff blob",
            &ExifPolicy::ATTRIBUTED_ORIENTATION()
        )
        .is_none()
    );
    let garbage = b"not a valid tiff blob";
    assert!(matches!(
        retain(garbage, &ExifPolicy::KEEP_ALL()),
        Some(Cow::Borrowed(_))
    ));
}

#[test]
fn exif_pointer_to_invalid_offset_is_swallowed() {
    let ori = entry_inline(TAG_ORIENTATION, TIFF_SHORT, 1, [6, 0, 0, 0]);
    let ptr = entry_inline(TAG_EXIF_IFD, TIFF_LONG, 1, 0xFFFFu32.to_le_bytes());
    let blob = le_ifd0(&[ori, ptr], 0, &[]);
    let x = Exif::parse(&blob).expect("parses");
    assert_eq!(x.orientation(), Some(Orientation::Rotate90));
    assert!(!x.has_gps());
}

#[test]
fn exif_pointer_cycle_to_ifd0_terminates() {
    let ori = entry_inline(TAG_ORIENTATION, TIFF_SHORT, 1, [6, 0, 0, 0]);
    let ptr = entry_inline(TAG_EXIF_IFD, TIFF_LONG, 1, 8u32.to_le_bytes());
    let blob = le_ifd0(&[ori, ptr], 0, &[]);
    let x = Exif::parse(&blob).expect("parses + terminates");
    assert_eq!(x.orientation(), Some(Orientation::Rotate90));
}

#[test]
fn huge_thumbnail_1mb_round_trips_and_borrows() {
    let big = vec![0xABu8; 1 << 20]; // 1 MiB thumbnail
    let exif = Exif {
        order: ByteOrder::Little,
        had_prefix: false,
        ifd0: vec![e(TAG_ORIENTATION, TIFF_SHORT, 1, &[6, 0])],
        exif_ifd: None,
        gps_ifd: None,
        ifd1: Some(vec![]),
        thumbnail: Some(&big),
        text_encoding: TextEncoding::Ascii,
    };
    let bytes = exif.to_bytes();
    let y = Exif::parse(&bytes).expect("parses");
    assert!(y.has_thumbnail());
    assert_eq!(y.thumbnail.unwrap().len(), 1 << 20);
    assert_eq!(y.thumbnail.unwrap(), &big[..]);
    assert!(matches!(
        retain(&bytes, &ExifPolicy::KEEP_ALL()),
        Some(Cow::Borrowed(_))
    ));
}

#[test]
fn thumbnail_length_as_short_is_recognized() {
    let mut v = vec![b'I', b'I', 0x2A, 0x00];
    v.extend_from_slice(&8u32.to_le_bytes());
    v.extend_from_slice(&1u16.to_le_bytes());
    v.extend_from_slice(&entry_inline(TAG_ORIENTATION, TIFF_SHORT, 1, [6, 0, 0, 0]));
    v.extend_from_slice(&26u32.to_le_bytes());
    v.extend_from_slice(&2u16.to_le_bytes());
    v.extend_from_slice(&entry_inline(
        TAG_THUMB_OFFSET,
        TIFF_LONG,
        1,
        56u32.to_le_bytes(),
    ));
    v.extend_from_slice(&entry_inline(TAG_THUMB_LENGTH, TIFF_SHORT, 1, [4, 0, 0, 0])); // SHORT!
    v.extend_from_slice(&0u32.to_le_bytes());
    v.extend_from_slice(&[0xFF, 0xD8, 0xFF, 0xD9]);

    let x = Exif::parse(&v).expect("parses");
    assert!(
        x.has_thumbnail(),
        "SHORT-length thumbnail must be recognized"
    );
    assert_eq!(x.thumbnail.unwrap(), &[0xFF, 0xD8, 0xFF, 0xD9]);
    assert_eq!(x.orientation(), Some(Orientation::Rotate90));
}

#[test]
fn aliased_out_of_line_values_do_not_amplify() {
    let n = 40u32;
    let blob_len = 100u32;
    let tail_off = 8 + 2 + 12 * n + 4;
    let entries: Vec<[u8; 12]> = (0..n)
        .map(|i| entry_offset(0x1000 + i as u16, TIFF_ASCII, blob_len, tail_off))
        .collect();
    let src = le_ifd0(&entries, 0, &vec![0x41u8; blob_len as usize]);

    let x = Exif::parse(&src).expect("parses");
    let policy = ExifPolicy::KEEP_ALL().with_gps(Retention::Discard);
    let out = x.filtered(&policy).to_bytes();
    assert!(
        out.len() < src.len() + 64,
        "amplification: {} vs src {}",
        out.len(),
        src.len()
    );
    assert!(Exif::parse(&out).is_some(), "rewritten output re-parses");
}

#[test]
fn overlapping_window_values_rejected_not_amplified() {
    let k: u32 = 16;
    let win: u32 = 1024; // BYTE count → 1024-byte out-of-line value
    let vstart: u32 = 8 + 2 + 12 * k + 4; // where `le_ifd0` places the tail
    let entries: Vec<[u8; 12]> = (0..k)
        .map(|i| entry_offset(0xC000 + i as u16, TIFF_BYTE, win, vstart + i))
        .collect();
    let tail = vec![0xABu8; (k - 1 + win + 16) as usize];
    let src = le_ifd0(&entries, 0, &tail);

    let x = Exif::parse(&src).expect("malicious-but-parseable blob");
    assert_eq!(x.ifd0.len(), k as usize, "all overlapping entries parsed");
    assert!(
        x.serialized_len() > src.len() * 3,
        "expected amplification: serialized_len {} vs src {}",
        x.serialized_len(),
        src.len()
    );
    let policy = ExifPolicy::KEEP_ALL().with_gps(Retention::Discard);
    assert_eq!(
        retain(&src, &policy),
        None,
        "amplifying blob must fail safe"
    );
}

#[test]
fn serialized_len_equals_to_bytes_len() {
    for prefix in [false, true] {
        let bytes = sample(ByteOrder::Little, prefix);
        let x = Exif::parse(&bytes).expect("parses");
        assert_eq!(
            x.serialized_len(),
            x.to_bytes().len(),
            "full tree (prefix={prefix})"
        );
        let pruned = x.filtered(&ExifPolicy::KEEP_ALL().with_gps(Retention::Discard));
        assert_eq!(
            pruned.serialized_len(),
            pruned.to_bytes().len(),
            "pruned (prefix={prefix})"
        );
    }
    let be_bytes = sample(ByteOrder::Big, false);
    let be = Exif::parse(&be_bytes).expect("parses");
    assert_eq!(
        be.serialized_len(),
        be.to_bytes().len(),
        "big-endian full tree"
    );
}

#[test]
fn has_camera_and_datetimes_classify_and_filter() {
    let bytes = sample(ByteOrder::Little, false);
    let x = Exif::parse(&bytes).expect("parses");
    assert!(x.has_camera(), "Make is the camera category");
    assert!(
        x.has_datetimes(),
        "DateTimeOriginal is the datetimes category"
    );
    let stripped = x.filtered(
        &ExifPolicy::KEEP_ALL()
            .with_camera(Retention::Discard)
            .with_datetimes(Retention::Discard),
    );
    assert!(!stripped.has_camera(), "camera category dropped");
    assert!(!stripped.has_datetimes(), "datetimes category dropped");
}

#[test]
fn short_subifd_pointer_is_preserved() {
    let ori = entry_inline(TAG_ORIENTATION, TIFF_SHORT, 1, [6, 0, 0, 0]);
    let bad_ptr = entry_inline(TAG_EXIF_IFD, 1, 1, [1, 0, 0, 0]);
    let src = le_ifd0(&[ori, bad_ptr], 0, &[]);
    let x = Exif::parse(&src).expect("parses");
    assert_eq!(x.orientation(), Some(Orientation::Rotate90));
    let out = x.to_bytes();
    assert!(out.windows(2).any(|w| w == TAG_EXIF_IFD.to_le_bytes()));
}

#[test]
fn stray_structural_pointer_dropped_on_filtering_rewrite() {
    let ori = entry_inline(TAG_ORIENTATION, TIFF_SHORT, 1, [6, 0, 0, 0]);
    let bad_gps = entry_inline(TAG_GPS_IFD, TIFF_SHORT, 1, [1, 0, 0, 0]);
    let src = le_ifd0(&[ori, bad_gps], 0, &[]);
    let x = Exif::parse(&src).expect("parses");
    let policy = ExifPolicy::KEEP_ALL().with_gps(Retention::Discard);
    let out = x.filtered(&policy).to_bytes();
    assert!(
        !out.windows(2).any(|w| w == TAG_GPS_IFD.to_le_bytes()),
        "stray GPS pointer must be dropped on a filtering rewrite, not left dangling"
    );
    assert_eq!(
        Exif::parse(&out).unwrap().orientation(),
        Some(Orientation::Rotate90),
        "real metadata still round-trips"
    );
}

#[test]
fn retain_reconciled_reconciles_in_one_pass() {
    let ori = entry_inline(TAG_ORIENTATION, TIFF_SHORT, 1, [6, 0, 0, 0]); // Rotate90
    let cr = entry_inline(TAG_COPYRIGHT, TIFF_ASCII, 3, [b'M', b'e', 0, 0]);
    let src = le_ifd0(&[ori, cr], 0, &[]);

    let policy = ExifPolicy::KEEP_ALL().with_gps(Retention::Discard);
    let out = retain_reconciled(&src, &policy, Some(Orientation::Identity)).expect("some");
    let x = Exif::parse(&out).unwrap();
    assert_eq!(
        x.orientation(),
        Some(Orientation::Identity),
        "tag reconciled"
    );
    assert_eq!(x.copyright().unwrap(), "Me", "rights preserved");

    assert!(matches!(
        retain_reconciled(&src, &ExifPolicy::KEEP_ALL(), Some(Orientation::Rotate90)),
        Some(Cow::Borrowed(_))
    ));
    let fixed =
        retain_reconciled(&src, &ExifPolicy::KEEP_ALL(), Some(Orientation::Rotate180)).unwrap();
    assert_eq!(
        Exif::parse(&fixed).unwrap().orientation(),
        Some(Orientation::Rotate180)
    );
    assert!(matches!(
        retain_reconciled(&src, &ExifPolicy::KEEP_ALL(), None),
        Some(Cow::Borrowed(_))
    ));
}

#[test]
fn non_ascii_copyright_preserved_byte_exact() {
    let e = entry_offset(TAG_COPYRIGHT, TIFF_ASCII, 5, 26);
    let src = le_ifd0(&[e], 0, b"\xA9 Me\0");
    let x = Exif::parse(&src).expect("parses");
    assert_eq!(x.copyright_bytes(), Some(&b"\xA9 Me"[..])); // exact bytes
    assert_eq!(x.copyright().unwrap(), "\u{FFFD} Me"); // lossy view

    let policy = ExifPolicy::KEEP_ALL().with_gps(Retention::Discard);
    let out = x.filtered(&policy).to_bytes();
    let y = Exif::parse(&out).expect("re-parses");
    assert_eq!(
        y.copyright_bytes(),
        Some(&b"\xA9 Me"[..]),
        "Latin-1 copyright must round-trip byte-exact, not transcode"
    );
}

#[test]
fn to_bytes_is_canonical_fixpoint() {
    let va = [0xAAu8; 10];
    let vb = [0xBBu8; 10];
    let x = Exif {
        order: ByteOrder::Little,
        had_prefix: false,
        ifd0: vec![
            e(0x0200, TIFF_ASCII, 10, &va),
            e(0x0100, TIFF_ASCII, 10, &vb),
        ],
        exif_ifd: None,
        gps_ifd: None,
        ifd1: None,
        thumbnail: None,
        text_encoding: TextEncoding::Ascii,
    };
    let b1 = x.to_bytes();
    let b2 = Exif::parse(&b1).expect("re-parses").to_bytes();
    assert_eq!(b1, b2, "to_bytes must be a byte-exact fixpoint (canonical)");
}

#[test]
fn utf8_typed_copyright_parses_and_round_trips() {
    let e = entry_offset(TAG_COPYRIGHT, TIFF_UTF8, 6, 26);
    let blob = le_ifd0(&[e], 0, b"\xC2\xA9 Me\0");
    let x = Exif::parse(&blob).expect("parses UTF-8-typed copyright");
    assert_eq!(x.copyright().unwrap(), "© Me");
    assert!(matches!(x.copyright().unwrap(), Cow::Borrowed(_))); // valid UTF-8
    let out = x.to_bytes();
    let y = Exif::parse(&out).expect("re-parses");
    assert_eq!(y.copyright().unwrap(), "© Me");
    assert_eq!(y.copyright_bytes(), Some(&b"\xC2\xA9 Me"[..]));
    assert!(out.windows(2).any(|w| w == TIFF_UTF8.to_le_bytes()));
}

#[test]
fn filtering_is_idempotent() {
    let src = sample(ByteOrder::Little, false);
    let policy = ExifPolicy::KEEP_ALL().with_gps(Retention::Discard);
    let once = match retain(&src, &policy) {
        Some(c) => c.into_owned(),
        None => return,
    };
    let twice = retain(&once, &policy).map(|c| c.into_owned());
    assert_eq!(Some(once), twice, "filtering must be idempotent");
}

#[test]
fn attribution_tags_kept_device_tags_dropped() {
    let exif = Exif {
        order: ByteOrder::Little,
        had_prefix: false,
        ifd0: vec![e(TAG_ORIENTATION, TIFF_SHORT, 1, &[6, 0])],
        exif_ifd: Some(vec![
            e(TAG_BODY_SERIAL_NUMBER, TIFF_ASCII, 4, b"SN1\0"), // → Camera
            e(TAG_PHOTOGRAPHER, TIFF_ASCII, 4, b"Me\0\0"),      // → Rights
        ]),
        gps_ifd: None,
        ifd1: None,
        thumbnail: None,
        text_encoding: TextEncoding::Ascii,
    };
    let out = exif
        .filtered(&ExifPolicy::ATTRIBUTED_ORIENTATION())
        .to_bytes();
    assert!(
        out.windows(2).any(|w| w == TAG_PHOTOGRAPHER.to_le_bytes()),
        "Photographer (attribution) must survive a rights policy"
    );
    assert!(
        !out.windows(2)
            .any(|w| w == TAG_BODY_SERIAL_NUMBER.to_le_bytes()),
        "BodySerialNumber (device identity) must be stripped"
    );
}

fn orientation_only() -> Vec<u8> {
    le_ifd0(
        &[entry_inline(TAG_ORIENTATION, TIFF_SHORT, 1, [6, 0, 0, 0])],
        0,
        &[],
    )
}

#[test]
fn set_copyright_inserts_ascii_type2() {
    let blob = orientation_only();
    let mut x = Exif::parse(&blob).unwrap();
    assert!(x.copyright().is_none());
    x.set_copyright("(c) 2026 Lilith");
    let out = x.to_bytes();
    let y = Exif::parse(&out).unwrap();
    assert_eq!(y.copyright().unwrap(), "(c) 2026 Lilith");
    assert_eq!(y.copyright_bytes(), Some(&b"(c) 2026 Lilith"[..]));
    assert_eq!(y.orientation(), Some(Orientation::Rotate90)); // unchanged
    assert!(out.windows(2).any(|w| w == TIFF_ASCII.to_le_bytes()));
}

#[test]
fn set_copyright_utf8_writes_type129() {
    let mut x = Exif::new(TextEncoding::Utf8);
    x.set_copyright("© 2026 Lilith");
    let out = x.to_bytes();
    let y = Exif::parse(&out).unwrap();
    assert_eq!(y.copyright().unwrap(), "© 2026 Lilith");
    assert!(out.windows(2).any(|w| w == TIFF_UTF8.to_le_bytes()));
}

#[test]
fn set_copyright_replaces_existing() {
    let src = sample(ByteOrder::Little, false); // has "(c) Me"
    let mut x = Exif::parse(&src).unwrap();
    assert_eq!(x.copyright().unwrap(), "(c) Me");
    x.set_copyright("(c) New Owner");
    let out = x.to_bytes();
    let y = Exif::parse(&out).unwrap();
    assert_eq!(y.copyright().unwrap(), "(c) New Owner");
    let n = y.ifd0.iter().filter(|e| e.tag == TAG_COPYRIGHT).count();
    assert_eq!(n, 1, "must replace, not duplicate");
}

#[test]
fn set_copyright_ascii_carries_utf8_bytes_defacto() {
    let blob = orientation_only();
    let mut x = Exif::parse(&blob).unwrap();
    x.set_copyright("© Лилит"); // non-ASCII into type 2
    let out = x.to_bytes();
    let y = Exif::parse(&out).unwrap();
    assert_eq!(y.copyright_bytes(), Some("© Лилит".as_bytes()));
    assert_eq!(y.copyright().unwrap(), "© Лилит"); // valid UTF-8 → reads back
    assert!(out.windows(2).any(|w| w == TIFF_ASCII.to_le_bytes()));
}

#[test]
fn set_artist_round_trips_and_is_rights() {
    let blob = orientation_only();
    let mut x = Exif::parse(&blob).unwrap();
    x.set_artist("Lilith");
    let out = x.to_bytes();
    let y = Exif::parse(&out).unwrap();
    assert_eq!(y.artist().unwrap(), "Lilith");
    let kept = y.filtered(&ExifPolicy::ATTRIBUTED_ORIENTATION()).to_bytes();
    assert!(Exif::parse(&kept).unwrap().artist().is_some());
    let dropped = y
        .filtered(&ExifPolicy::KEEP_ALL().with_rights(Retention::Discard))
        .to_bytes();
    assert!(Exif::parse(&dropped).unwrap().artist().is_none());
}

#[test]
fn edited_copyright_survives_filter_rewrite() {
    let src = sample(ByteOrder::Little, false);
    let mut x = Exif::parse(&src).unwrap();
    let long = "Copyright 2026 Lilith River — all rights reserved worldwide.";
    x.set_copyright(long); // long → out-of-line
    let out = x
        .filtered(&ExifPolicy::KEEP_ALL().with_gps(Retention::Discard))
        .to_bytes();
    let y = Exif::parse(&out).unwrap();
    assert_eq!(y.copyright().unwrap(), long);
    assert!(!y.has_gps());
    assert_eq!(y.orientation(), Some(Orientation::Rotate90));
}

#[test]
fn edited_to_bytes_is_canonical_fixpoint() {
    let blob = orientation_only();
    let mut x = Exif::parse(&blob).unwrap();
    x.set_copyright("(c) Me");
    let b1 = x.to_bytes();
    let b2 = Exif::parse(&b1).unwrap().to_bytes();
    assert_eq!(b1, b2, "edited output must be a canonical fixpoint");
}

#[test]
fn makernote_dropped_when_gps_stripped_even_if_camera_kept() {
    let exif = Exif {
        order: ByteOrder::Little,
        had_prefix: false,
        ifd0: vec![
            e(TAG_ORIENTATION, TIFF_SHORT, 1, &[6, 0]),
            e(TAG_MAKER_NOTE, TIFF_UNDEFINED, 8, b"MAKER\0\0\0"),
        ],
        exif_ifd: None,
        gps_ifd: None,
        ifd1: None,
        thumbnail: None,
        text_encoding: TextEncoding::Ascii,
    };
    let stripped = exif
        .filtered(&ExifPolicy::KEEP_ALL().with_gps(Retention::Discard))
        .to_bytes();
    assert!(
        !stripped
            .windows(2)
            .any(|w| w == TAG_MAKER_NOTE.to_le_bytes()),
        "MakerNote must be stripped when GPS is dropped"
    );
    let pruned = exif
        .filtered(&ExifPolicy::KEEP_ALL().with_other(Retention::Discard))
        .to_bytes();
    assert!(
        !pruned.windows(2).any(|w| w == TAG_MAKER_NOTE.to_le_bytes()),
        "MakerNote dropped on a pruning rewrite (can't safely relocate)"
    );
    let blob = exif.to_bytes();
    let kept = retain(&blob, &ExifPolicy::KEEP_ALL()).expect("keep-all");
    assert!(
        matches!(kept, Cow::Borrowed(_))
            && kept.windows(2).any(|w| w == TAG_MAKER_NOTE.to_le_bytes()),
        "MakerNote preserved byte-exact under keep-everything (no rewrite)"
    );
}

#[test]
fn subifds_pointer_dropped_on_rewrite() {
    let exif = Exif {
        order: ByteOrder::Little,
        had_prefix: false,
        ifd0: vec![
            e(TAG_ORIENTATION, TIFF_SHORT, 1, &[6, 0]),
            e(TAG_SUBIFDS, TIFF_LONG, 1, &[0x40, 0, 0, 0]),
        ],
        exif_ifd: None,
        gps_ifd: None,
        ifd1: None,
        thumbnail: None,
        text_encoding: TextEncoding::Ascii,
    };
    let out = exif
        .filtered(&ExifPolicy::KEEP_ALL().with_gps(Retention::Discard))
        .to_bytes();
    assert!(
        !out.windows(2).any(|w| w == TAG_SUBIFDS.to_le_bytes()),
        "SubIFDs pointer must be dropped on rewrite (would dangle)"
    );
    assert_eq!(
        Exif::parse(&out).unwrap().orientation(),
        Some(Orientation::Rotate90)
    );
}

#[test]
fn ifd1_entries_filtered_by_category() {
    let exif = Exif {
        order: ByteOrder::Little,
        had_prefix: false,
        ifd0: vec![e(TAG_ORIENTATION, TIFF_SHORT, 1, &[6, 0])],
        exif_ifd: None,
        gps_ifd: None,
        ifd1: Some(vec![e(TAG_MAKE, TIFF_ASCII, 4, b"Cam\0")]), // camera tag in IFD1
        thumbnail: Some(&[0xFF, 0xD8, 0xFF, 0xD9]),
        text_encoding: TextEncoding::Ascii,
    };
    let out = exif
        .filtered(&ExifPolicy::KEEP_ALL().with_camera(Retention::Discard))
        .to_bytes();
    let y = Exif::parse(&out).unwrap();
    assert!(y.has_thumbnail(), "thumbnail image must be kept");
    assert!(
        !out.windows(2).any(|w| w == TAG_MAKE.to_le_bytes()),
        "IFD1 camera tag (Make) must be stripped"
    );
}

#[test]
fn new_from_scratch_copyright_round_trips() {
    let mut exif = Exif::new(TextEncoding::Ascii);
    assert!(exif.copyright().is_none());
    exif.set_copyright("(c) 2026 Lilith");
    let blob = exif.to_bytes();
    let y = Exif::parse(&blob).expect("fresh blob parses");
    assert_eq!(y.copyright().unwrap(), "(c) 2026 Lilith");
    assert!(!y.has_gps() && !y.has_thumbnail());
    let kept = y.filtered(&ExifPolicy::ATTRIBUTED_ORIENTATION()).to_bytes();
    assert_eq!(
        Exif::parse(&kept).unwrap().copyright().unwrap(),
        "(c) 2026 Lilith"
    );
}

#[test]
fn new_default_empty_round_trips() {
    let blob = Exif::default().to_bytes();
    let y = Exif::parse(&blob).expect("empty blob parses");
    assert!(y.copyright().is_none() && !y.has_gps() && !y.has_thumbnail());
}

#[test]
fn set_orientation_adds_entry_from_scratch() {
    let mut exif = Exif::new(TextEncoding::Ascii);
    assert!(exif.orientation().is_none());
    exif.set_copyright("(c) Me");
    exif.set_orientation(Orientation::Rotate90);
    let blob = exif.to_bytes();
    let y = Exif::parse(&blob).expect("fresh blob parses");
    assert_eq!(y.orientation(), Some(Orientation::Rotate90));
    assert_eq!(y.copyright().unwrap(), "(c) Me");
    let en = y.ifd0.iter().find(|e| e.tag == TAG_ORIENTATION).unwrap();
    assert_eq!((en.kind, en.count), (TIFF_SHORT, 1));
    assert_eq!(blob, y.to_bytes());
}

#[test]
fn set_orientation_replaces_existing_preserving_kind() {
    let bytes = sample(ByteOrder::Big, false); // SHORT Orientation=Rotate90
    let mut x = Exif::parse(&bytes).unwrap();
    x.set_orientation(Orientation::Identity);
    let out = x.to_bytes();
    let y = Exif::parse(&out).unwrap();
    assert_eq!(y.orientation(), Some(Orientation::Identity));
    let en = y.ifd0.iter().find(|e| e.tag == TAG_ORIENTATION).unwrap();
    assert_eq!((en.kind, en.count), (TIFF_SHORT, 1));

    let mut nb = y.filtered(&ExifPolicy::KEEP_ALL().with_orientation(Retention::Discard));
    assert!(nb.orientation().is_none());
    nb.set_orientation(Orientation::Rotate180);
    let re = nb.to_bytes();
    assert_eq!(
        Exif::parse(&re).unwrap().orientation(),
        Some(Orientation::Rotate180)
    );

    let mut long = Exif {
        order: ByteOrder::Little,
        had_prefix: false,
        ifd0: vec![e(TAG_ORIENTATION, TIFF_LONG, 1, &[3, 0, 0, 0])],
        exif_ifd: None,
        gps_ifd: None,
        ifd1: None,
        thumbnail: None,
        text_encoding: TextEncoding::Ascii,
    };
    long.set_orientation(Orientation::Rotate180);
    let lb = long.to_bytes();
    let z = Exif::parse(&lb).unwrap();
    assert_eq!(z.orientation(), Some(Orientation::Rotate180));
    let en = z.ifd0.iter().find(|e| e.tag == TAG_ORIENTATION).unwrap();
    assert_eq!((en.kind, en.count), (TIFF_LONG, 1));
}

#[test]
fn set_orientation_replaces_non_integer_carrier() {
    let mut exif = Exif {
        order: ByteOrder::Little,
        had_prefix: false,
        ifd0: vec![e(TAG_ORIENTATION, TIFF_ASCII, 2, b"6\0")],
        exif_ifd: None,
        gps_ifd: None,
        ifd1: None,
        thumbnail: None,
        text_encoding: TextEncoding::Ascii,
    };
    assert!(exif.orientation().is_none(), "ASCII carrier is unreadable");
    exif.set_orientation(Orientation::Rotate270);
    let blob = exif.to_bytes();
    let y = Exif::parse(&blob).unwrap();
    assert_eq!(y.orientation(), Some(Orientation::Rotate270));
    let en = y.ifd0.iter().find(|e| e.tag == TAG_ORIENTATION).unwrap();
    assert_eq!((en.kind, en.count), (TIFF_SHORT, 1));
}

#[test]
fn reconcile_orientation_canonicalizes_count_97() {
    let mut x = Exif::new(TextEncoding::Ascii);
    x.ifd0.push(e(TAG_ORIENTATION, TIFF_SHORT, 20, &[0, 1]));
    x.set_orientation_tag(Orientation::Rotate90);
    let en = x.ifd0.iter().find(|e| e.tag == TAG_ORIENTATION).unwrap();
    assert_eq!(en.count, 1, "reconcile must canonicalize orientation count");
    let b1 = x.to_bytes();
    let y = Exif::parse(&b1).expect("must re-parse");
    assert_eq!(y.orientation(), Some(Orientation::Rotate90));
    assert_eq!(b1, y.to_bytes(), "must be a serializer fixpoint");
}

#[test]
fn duplicate_gps_pointer_stripped_on_parse_30() {
    let mut t = vec![b'M', b'M', 0, 0x2a, 0, 0, 0, 8];
    t.extend_from_slice(&[0, 2]); // 2 entries
    t.extend_from_slice(&[0x88, 0x25, 0, 4, 0, 0, 0, 1, 0, 0, 0, 0x26]); // GPS LONG -> 0x26
    t.extend_from_slice(&[0x88, 0x25, 0, 4, 0, 0, 0, 1, 0, 0, 0, 0x2c]); // GPS LONG -> 0x2c (dup)
    t.extend_from_slice(&[0, 0, 0, 0]); // IFD0 next = 0
    t.extend_from_slice(&[0, 0, 0, 0, 0, 0]); // empty GPS IFD @ 0x26 (count0, next0)
    t.extend_from_slice(&[0, 0, 0, 0, 0, 0]); // empty GPS IFD @ 0x2c
    let x = Exif::parse(&t).expect("fixture must parse");
    assert!(x.has_gps(), "first GPS pointer should be extracted");
    assert!(
        !x.ifd0.iter().any(|e| e.tag == TAG_GPS_IFD),
        "duplicate GPS structural tag leaked into ifd0"
    );
    let b1 = x.to_bytes();
    let y = Exif::parse(&b1).expect("must re-parse");
    assert_eq!(x.has_gps(), y.has_gps(), "gps presence must round-trip");
    assert_eq!(b1, y.to_bytes(), "must be a serializer fixpoint");
}

#[test]
fn in_place_orientation_changes_nothing_else() {
    let blob = orientation_only();
    let out = set_orientation(&blob, Orientation::Rotate180).expect("has a tag");
    assert_eq!(out.len(), blob.len());
    let differing = out.iter().zip(&blob).filter(|(a, b)| a != b).count();
    assert_eq!(differing, 1);
    assert_eq!(Exif::parse(&out).unwrap().orientation(), Some(Orientation::Rotate180));
    assert_eq!(set_orientation(&out, Orientation::Rotate180), Some(out.clone()));
    assert_eq!(set_orientation(b"garbage", Orientation::Rotate90), None);
    let none = le_ifd0(&[entry_inline(TAG_COPYRIGHT, TIFF_ASCII, 3, *b"Me\0\0")], 0, &[]);
    assert_eq!(set_orientation(&none, Orientation::Rotate90), None);
}

#[test]
fn artist_bytes_and_byte_order_are_read() {
    let blob = le_ifd0(&[entry_inline(TAG_ARTIST, TIFF_ASCII, 4, *b"Ann\0")], 0, &[]);
    let x = Exif::parse(&blob).unwrap();
    assert_eq!(x.artist_bytes(), Some(&b"Ann"[..]));
    assert_eq!(x.byte_order(), ByteOrder::Little);
    assert_eq!(x.ifd0[0].bytes(), b"Ann\0");
}

#[test]
fn policies_answer_what_they_keep() {
    assert!(ExifPolicy::KEEP_ALL().keeps_everything());
    assert!(!ExifPolicy::KEEP_ALL().with_other(Retention::Discard).keeps_everything());
    assert!(ExifPolicy::DISCARD_ALL().discards_everything());
    assert!(!ExifPolicy::ORIENTATION_ONLY().discards_everything());
    assert!(Retention::Keep.keeps() && Retention::Discard.discards());
    let blob = sample(ByteOrder::Little, false);
    let x = Exif::parse(&blob).unwrap();
    let only = x.filtered(&ExifPolicy::ORIENTATION_ONLY());
    assert_eq!(only.orientation(), Some(Orientation::Rotate90));
    assert!(only.copyright().is_none());
}

#[test]
fn checked_length_agrees_with_the_length() {
    let blob = sample(ByteOrder::Big, true);
    let x = Exif::parse(&blob).unwrap();
    assert_eq!(x.checked_serialized_len(), Some(x.serialized_len()));
}
