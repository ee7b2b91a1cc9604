//! What reading, writing, pruning and rewriting have to do with each other, on
//! small trees.
use std::borrow::Cow;
use zencodec::exif::tags::{
    TAG_ARTIST, TAG_COPYRIGHT, TAG_DATETIME_ORIGINAL, TAG_MAKE, TAG_ORIENTATION, TIFF_ASCII,
    TIFF_LONG, TIFF_SHORT,
};
use zencodec::exif::{
    retain, retain_reconciled, set_orientation, ByteOrder, Entry, Exif, ExifPolicy, Retention,
    TextEncoding,
};
use zencodec::helpers::parse_exif_orientation;
use zencodec::metadata::carried::Metadata;
use zencodec::metadata::policy::{MetadataFields, MetadataPolicy};
use zencodec::Orientation;

fn entry(tag: u16, kind: u16, count: u32, value: &[u8], at: usize) -> Entry<'_> {
    Entry {
        tag,
        kind,
        count,
        value: Cow::Borrowed(value),
        value_offset: at,
    }
}

/// A blob whose orientation entry has the given type, count and value, with a
/// copyright, a camera maker, a date, GPS data and a thumbnail.
fn blob(kind: u16, count: u32, value: &[u8], had_prefix: bool) -> Vec<u8> {
    Exif {
        order: ByteOrder::Little,
        had_prefix,
        ifd0: vec![
            entry(TAG_COPYRIGHT, TIFF_ASCII, 7, b"(c) Me\0", 100),
            entry(TAG_ORIENTATION, kind, count, value, 200),
            entry(TAG_MAKE, TIFF_ASCII, 4, b"Cam\0", 300),
        ],
        exif_ifd: Some(vec![entry(TAG_DATETIME_ORIGINAL, TIFF_ASCII, 5, b"2020\0", 400)]),
        gps_ifd: Some(vec![entry(0x0001, TIFF_ASCII, 2, b"N\0", 500)]),
        ifd1: Some(vec![]),
        thumbnail: Some(&[0xFF, 0xD8, 0xFF, 0xD9]),
        text_encoding: TextEncoding::Ascii,
    }
    .to_bytes()
}

/// Blobs whose orientation is in its row, behind the table, or missing a value.
fn blobs() -> Vec<Vec<u8>> {
    vec![
        blob(TIFF_SHORT, 1, &[6, 0], false),
        blob(TIFF_LONG, 1, &[6, 0, 0, 0], true),
        blob(TIFF_SHORT, 3, &[6, 0, 1, 0, 2, 0], false),
        blob(TIFF_LONG, 2, &[6, 0, 0, 0, 9, 0, 0, 0], true),
        blob(TIFF_SHORT, 0, &[], false),
        blob(TIFF_LONG, 0, &[], true),
    ]
}

fn policies() -> Vec<ExifPolicy> {
    vec![
        ExifPolicy::KEEP_ALL(),
        ExifPolicy::DISCARD_ALL(),
        ExifPolicy::ORIENTATION_ONLY(),
        ExifPolicy::ATTRIBUTED_ORIENTATION(),
        ExifPolicy::KEEP_ALL().with_camera(Retention::Discard),
        ExifPolicy::KEEP_ALL().with_gps(Retention::Discard),
    ]
}

#[test]
fn written_blobs_are_fixed_points() {
    for b in blobs() {
        let x = Exif::parse(&b).unwrap();
        assert_eq!(x.to_bytes(), b);
        assert_eq!(x.serialized_len(), b.len());
    }
}

#[test]
fn filtering_by_one_policy_settles() {
    for b in blobs() {
        for p in policies() {
            let policy = MetadataPolicy::Custom(MetadataFields::KEEP_ALL().with_exif(p));
            for o in [Orientation::Identity, Orientation::Rotate90, Orientation::Rotate270] {
                let m = Metadata::none().with_exif(b.clone()).with_orientation(o);
                let once = m.filtered(&policy);
                assert_eq!(once.filtered(&policy), once);
                assert_eq!(once.filtered(&MetadataPolicy::PreserveExact), once);
                if let Some(c) = once.exif.as_deref() {
                    let found = parse_exif_orientation(c);
                    assert!(found.is_none() || found == Some(once.orientation));
                }
            }
        }
    }
}

#[test]
fn shared_orientation_bytes_are_rewritten_together() {
    // Artist and orientation are read from the same six bytes.
    let shared = [6u8, 0, 1, 0, 2, 0];
    let mut tree = Exif::new(TextEncoding::Ascii);
    tree.order = ByteOrder::Little;
    tree.ifd0 = vec![
        entry(TAG_ORIENTATION, TIFF_SHORT, 3, &shared, 40),
        entry(TAG_ARTIST, TIFF_ASCII, 6, &shared, 40),
    ];
    let b = tree.to_bytes();
    assert_eq!(b.len(), 8 + 2 + 2 * 12 + 4 + 6);
    let c = set_orientation(&b, Orientation::Rotate180).unwrap();
    let y = Exif::parse(&c).unwrap();
    assert_eq!(y.orientation(), Some(Orientation::Rotate180));
    assert_eq!(y.artist_bytes().unwrap()[0], 3);
    assert_eq!(y.to_bytes(), c);
}

#[test]
fn pruning_keeps_what_the_policy_keeps() {
    for b in blobs() {
        let p = ExifPolicy::KEEP_ALL()
            .with_camera(Retention::Discard)
            .with_datetimes(Retention::Discard);
        let out = retain(&b, &p).unwrap();
        let y = Exif::parse(&out).unwrap();
        assert_eq!(y.copyright().unwrap(), "(c) Me");
        assert!(y.has_gps() && y.has_thumbnail());
        assert!(!y.has_camera() && !y.has_datetimes());
        assert_eq!(y.orientation(), Exif::parse(&b).unwrap().orientation());
        assert_eq!(retain(&out, &p).unwrap(), out);
        assert!(out.len() <= 2 * b.len() + 1024);
    }
}

#[test]
fn reconciling_settles() {
    for b in blobs() {
        for p in policies() {
            let o = Some(Orientation::Rotate270);
            if let Some(once) = retain_reconciled(&b, &p, o) {
                let twice = retain_reconciled(&once, &p, o).unwrap();
                assert_eq!(twice, once);
            }
        }
    }
}

#[test]
fn authored_text_and_orientation_read_back() {
    let mut x = Exif::new(TextEncoding::Ascii);
    x.set_copyright("(c) 2024 Someone");
    x.set_artist("Someone Else");
    x.set_orientation(Orientation::FlipH);
    let b = x.to_bytes();
    let y = Exif::parse(&b).unwrap();
    assert_eq!(y.copyright().unwrap(), "(c) 2024 Someone");
    assert_eq!(y.artist().unwrap(), "Someone Else");
    assert_eq!(y.orientation(), Some(Orientation::FlipH));
}

#[test]
fn the_last_edit_of_each_kind_survives() {
    for encoding in [TextEncoding::Ascii, TextEncoding::Utf8] {
        let mut x = Exif::new(encoding);
        x.set_artist("a much longer name that is replaced");
        x.set_orientation(Orientation::Rotate90);
        x.set_copyright("first");
        x.set_orientation(Orientation::Transpose);
        x.set_artist("");
        x.set_copyright("sec\u{f6}nd\0hidden");
        let b = x.to_bytes();
        let y = Exif::parse(&b).unwrap();
        assert_eq!(y.orientation(), Some(Orientation::Transpose));
        assert_eq!(y.copyright().unwrap(), "sec\u{f6}nd");
        assert_eq!(y.artist(), None);
        assert_eq!(y.orientation(), x.orientation());
        assert_eq!(y.copyright(), x.copyright());
        assert_eq!(y.artist(), x.artist());
        assert_eq!(y.to_bytes(), b);
    }
}

#[test]
fn one_pass_is_pruning_and_then_rewriting() {
    let p = ExifPolicy::KEEP_ALL().with_camera(Retention::Discard);
    for o in [Orientation::Identity, Orientation::Rotate90, Orientation::Rotate270] {
        for (kind, value, prefix) in [
            (TIFF_SHORT, &[6u8, 0][..], false),
            (TIFF_LONG, &[6, 0, 0, 0][..], true),
            (TIFF_ASCII, &[0x36][..], false),
        ] {
            let b = blob(kind, 1, value, prefix);
            let pruned = retain(&b, &p).unwrap();
            let two = set_orientation(&pruned, o).unwrap_or(pruned.to_vec());
            assert_eq!(retain_reconciled(&b, &p, Some(o)).unwrap(), two);
        }
    }
}

#[test]
fn filtering_leaves_one_orientation_value() {
    let b = blob(TIFF_SHORT, 3, &[6, 0, 1, 0, 2, 0], false);
    let p = ExifPolicy::KEEP_ALL().with_gps(Retention::Discard);
    let policy = MetadataPolicy::Custom(MetadataFields::KEEP_ALL().with_exif(p));
    let m = Metadata::none().with_exif(b).with_orientation(Orientation::Rotate180);
    let out = m.filtered(&policy).exif.unwrap();
    let x = Exif::parse(&out).unwrap();
    let e = x.ifd0.iter().find(|e| e.tag == TAG_ORIENTATION).unwrap();
    assert_eq!((e.kind, e.count), (TIFF_SHORT, 1));
    assert_eq!(x.orientation(), Some(Orientation::Rotate180));
}

#[test]
fn setting_twice_is_setting_once() {
    for b in blobs() {
        let mut x = Exif::parse(&b).unwrap();
        let mut y = x.clone();
        assert!(x == y);
        x.set_artist("first");
        x.set_artist("second");
        y.set_artist("second");
        assert!(x == y);
        x.set_orientation(Orientation::FlipH);
        x.set_orientation(Orientation::Rotate90);
        y.set_orientation(Orientation::Rotate90);
        x.set_copyright("one");
        x.set_copyright("two");
        y.set_copyright("two");
        assert!(x == y);
        let at = |t: &Exif<'_>, tag: u16| {
            let e = t.ifd0.iter().find(|e| e.tag == tag).unwrap();
            e.value_offset
        };
        assert_eq!(at(&x, TAG_ARTIST), 0);
        assert_eq!(at(&x, TAG_COPYRIGHT), 0);
        assert_eq!(at(&x, TAG_ORIENTATION), at(&Exif::parse(&b).unwrap(), TAG_ORIENTATION));
        let z = Exif::parse(&b).unwrap().filtered(&ExifPolicy::ATTRIBUTED_ORIENTATION());
        assert_eq!(at(&z, TAG_COPYRIGHT), at(&Exif::parse(&b).unwrap(), TAG_COPYRIGHT));
    }
}

#[test]
fn edits_of_parsed_trees_read_back() {
    for b in blobs() {
        let mut x = Exif::parse(&b).unwrap();
        x.set_orientation(Orientation::Transverse);
        x.set_artist("Someone");
        let out = x.to_bytes();
        let y = Exif::parse(&out).unwrap();
        assert_eq!(y.orientation(), Some(Orientation::Transverse));
        assert_eq!(y.artist().unwrap(), "Someone");
        assert_eq!(y.copyright().unwrap(), "(c) Me");
        assert_eq!(y.to_bytes(), out);
    }
}

#[test]
fn only_the_value_is_rewritten_in_place() {
    let b = blob(TIFF_SHORT, 2, &[6, 0, 0xAA, 0xBB], false);
    let c = set_orientation(&b, Orientation::Rotate180).unwrap();
    let changed: Vec<usize> = (0..b.len()).filter(|&i| b[i] != c[i]).collect();
    assert_eq!(changed.len(), 1);
    let x = Exif::parse(&c).unwrap();
    let e = x.ifd0.iter().find(|e| e.tag == TAG_ORIENTATION).unwrap();
    assert_eq!(e.bytes(), &[3, 0, 0xAA, 0xBB]);
}
