//! Which EXIF categories to keep.
use super::tags::{category_of, classify, is_offset_bearing, offset_bearing, Category};
use vstd::prelude::*;

verus! {

/// Keep or discard a single metadata field.
#[derive(Debug, Clone, Copy, PartialEq, Eq, Structural)]
#[non_exhaustive]
pub enum Retention {
    /// Keep the field.
    Keep,
    /// Discard the field.
    Discard,
}

impl Retention {
    /// `true` if the field is kept.
    #[must_use]
    pub fn keeps(self) -> (b: bool)
        ensures
            b == (self == Retention::Keep),
    {
        match self {
            Retention::Keep => true,
            Retention::Discard => false,
        }
    }

    /// `true` if the field is dropped.
    #[must_use]
    pub fn discards(self) -> (b: bool)
        ensures
            b == (self == Retention::Discard),
    {
        match self {
            Retention::Keep => false,
            Retention::Discard => true,
        }
    }
}

/// Per-category EXIF retention.
#[derive(Debug, Clone, Copy, PartialEq, Eq, Structural)]
#[non_exhaustive]
pub struct ExifPolicy {
    /// The orientation tag.
    pub orientation: Retention,
    /// Copyright, artist and the other creator / owner names.
    pub rights: Retention,
    /// The embedded thumbnail with its directory.
    pub thumbnail: Retention,
    /// The GPS directory.
    pub gps: Retention,
    /// Timestamps.
    pub datetimes: Retention,
    /// Device and software identity.
    pub camera: Retention,
    /// Everything else.
    pub other: Retention,
}

impl ExifPolicy {
    /// The policy that treats every category alike.
    pub open spec fn uniform(r: Retention) -> ExifPolicy {
        ExifPolicy {
            orientation: r,
            rights: r,
            thumbnail: r,
            gps: r,
            datetimes: r,
            camera: r,
            other: r,
        }
    }

    /// What the policy says of a tag category.
    pub open spec fn of_category(self, c: Category) -> Retention {
        match c {
            Category::Orientation => self.orientation,
            Category::Rights => self.rights,
            Category::Datetimes => self.datetimes,
            Category::Camera => self.camera,
            Category::Other => self.other,
        }
    }

    /// Whether a rewrite under this policy carries an entry with `tag`.
    pub open spec fn keeps_tag(self, tag: u16) -> bool {
        !is_offset_bearing(tag) && self.of_category(category_of(tag)) == Retention::Keep
    }

    /// Keep every category.
    #[allow(non_snake_case)]
    pub fn KEEP_ALL() -> (p: ExifPolicy)
        ensures
            p == ExifPolicy::uniform(Retention::Keep),
    {
        ExifPolicy {
            orientation: Retention::Keep,
            rights: Retention::Keep,
            thumbnail: Retention::Keep,
            gps: Retention::Keep,
            datetimes: Retention::Keep,
            camera: Retention::Keep,
            other: Retention::Keep,
        }
    }

    /// Discard every category, which drops EXIF entirely.
    #[allow(non_snake_case)]
    pub fn DISCARD_ALL() -> (p: ExifPolicy)
        ensures
            p == ExifPolicy::uniform(Retention::Discard),
    {
        ExifPolicy {
            orientation: Retention::Discard,
            rights: Retention::Discard,
            thumbnail: Retention::Discard,
            gps: Retention::Discard,
            datetimes: Retention::Discard,
            camera: Retention::Discard,
            other: Retention::Discard,
        }
    }

    /// Orientation and rights only.
    pub open spec fn attributed_orientation() -> ExifPolicy {
        ExifPolicy {
            orientation: Retention::Keep,
            rights: Retention::Keep,
            ..ExifPolicy::uniform(Retention::Discard)
        }
    }

    /// Orientation only.
    pub open spec fn orientation_only() -> ExifPolicy {
        ExifPolicy {
            orientation: Retention::Keep,
            ..ExifPolicy::uniform(Retention::Discard)
        }
    }

    /// Keep only orientation and rights (the web default).
    #[allow(non_snake_case)]
    pub fn ATTRIBUTED_ORIENTATION() -> (p: ExifPolicy)
        ensures
            p == ExifPolicy::attributed_orientation(),
    {
        ExifPolicy {
            orientation: Retention::Keep,
            rights: Retention::Keep,
            ..ExifPolicy::DISCARD_ALL()
        }
    }

    /// Keep only orientation.
    #[allow(non_snake_case)]
    pub fn ORIENTATION_ONLY() -> (p: ExifPolicy)
        ensures
            p == ExifPolicy::orientation_only(),
    {
        ExifPolicy { orientation: Retention::Keep, ..ExifPolicy::DISCARD_ALL() }
    }

    /// Set the orientation category.
    #[must_use]
    pub fn with_orientation(self, r: Retention) -> (p: ExifPolicy)
        ensures
            p == (ExifPolicy { orientation: r, ..self }),
    {
        ExifPolicy { orientation: r, ..self }
    }

    /// Set the rights category.
    #[must_use]
    pub fn with_rights(self, r: Retention) -> (p: ExifPolicy)
        ensures
            p == (ExifPolicy { rights: r, ..self }),
    {
        ExifPolicy { rights: r, ..self }
    }

    /// Set the thumbnail category.
    #[must_use]
    pub fn with_thumbnail(self, r: Retention) -> (p: ExifPolicy)
        ensures
            p == (ExifPolicy { thumbnail: r, ..self }),
    {
        ExifPolicy { thumbnail: r, ..self }
    }

    /// Set the GPS category.
    #[must_use]
    pub fn with_gps(self, r: Retention) -> (p: ExifPolicy)
        ensures
            p == (ExifPolicy { gps: r, ..self }),
    {
        ExifPolicy { gps: r, ..self }
    }

    /// Set the timestamps category.
    #[must_use]
    pub fn with_datetimes(self, r: Retention) -> (p: ExifPolicy)
        ensures
            p == (ExifPolicy { datetimes: r, ..self }),
    {
        ExifPolicy { datetimes: r, ..self }
    }

    /// Set the device-identity category.
    #[must_use]
    pub fn with_camera(self, r: Retention) -> (p: ExifPolicy)
        ensures
            p == (ExifPolicy { camera: r, ..self }),
    {
        ExifPolicy { camera: r, ..self }
    }

    /// Set the category of everything else.
    #[must_use]
    pub fn with_other(self, r: Retention) -> (p: ExifPolicy)
        ensures
            p == (ExifPolicy { other: r, ..self }),
    {
        ExifPolicy { other: r, ..self }
    }

    /// Whether a category is kept.
    pub fn keeps(&self, c: Category) -> (b: bool)
        ensures
            b == (self.of_category(c) == Retention::Keep),
    {
        match c {
            Category::Orientation => self.orientation.keeps(),
            Category::Rights => self.rights.keeps(),
            Category::Datetimes => self.datetimes.keeps(),
            Category::Camera => self.camera.keeps(),
            Category::Other => self.other.keeps(),
        }
    }

    /// Whether a rewrite carries an entry with `tag`.
    pub fn carries(&self, tag: u16) -> (b: bool)
        ensures
            b == self.keeps_tag(tag),
    {
        !offset_bearing(tag) && self.keeps(classify(tag))
    }

    /// Whether every category is kept, so that a source passes through unchanged.
    pub fn keeps_everything(&self) -> (b: bool)
        ensures
            b == (*self == ExifPolicy::uniform(Retention::Keep)),
    {
        self.orientation.keeps() && self.rights.keeps() && self.thumbnail.keeps()
            && self.gps.keeps() && self.datetimes.keeps() && self.camera.keeps()
            && self.other.keeps()
    }

    /// Whether every category is discarded, so that EXIF is dropped entirely.
    pub fn discards_everything(&self) -> (b: bool)
        ensures
            b == (*self == ExifPolicy::uniform(Retention::Discard)),
    {
        self.orientation.discards() && self.rights.discards() && self.thumbnail.discards()
            && self.gps.discards() && self.datetimes.discards() && self.camera.discards()
            && self.other.discards()
    }
}

} // verus!
