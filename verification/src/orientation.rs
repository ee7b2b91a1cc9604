//! Image orientation and how a decoder is asked to treat it.
use vstd::prelude::*;

verus! {

/// Image orientation: the eight rotations and reflections of a rectangle, as
/// the EXIF orientation tag numbers them.
#[derive(Clone, Copy, Debug, PartialEq, Eq, Hash, Structural)]
#[non_exhaustive]
pub enum Orientation {
    /// No transformation (1).
    Identity,
    /// Mirrored left to right (2).
    FlipH,
    /// Rotated by 180 degrees (3).
    Rotate180,
    /// Mirrored top to bottom (4).
    FlipV,
    /// Reflected over the main diagonal (5).
    Transpose,
    /// Rotated by 90 degrees clockwise (6).
    Rotate90,
    /// Reflected over the anti-diagonal (7).
    Transverse,
    /// Rotated by 270 degrees clockwise (8).
    Rotate270,
}

impl Orientation {
    /// The value of the EXIF orientation tag.
    pub open spec fn code(self) -> u8 {
        match self {
            Orientation::Identity => 1,
            Orientation::FlipH => 2,
            Orientation::Rotate180 => 3,
            Orientation::FlipV => 4,
            Orientation::Transpose => 5,
            Orientation::Rotate90 => 6,
            Orientation::Transverse => 7,
            Orientation::Rotate270 => 8,
        }
    }

    /// The orientation that a tag value stands for.
    pub open spec fn of_code(value: int) -> Option<Orientation> {
        if value == 1 {
            Some(Orientation::Identity)
        } else if value == 2 {
            Some(Orientation::FlipH)
        } else if value == 3 {
            Some(Orientation::Rotate180)
        } else if value == 4 {
            Some(Orientation::FlipV)
        } else if value == 5 {
            Some(Orientation::Transpose)
        } else if value == 6 {
            Some(Orientation::Rotate90)
        } else if value == 7 {
            Some(Orientation::Transverse)
        } else if value == 8 {
            Some(Orientation::Rotate270)
        } else {
            None
        }
    }

    /// From the value of the EXIF orientation tag (1 to 8).
    pub fn from_exif(value: u8) -> (r: Option<Orientation>)
        ensures
            r == Orientation::of_code(value as int),
    {
        if value == 1 {
            Some(Orientation::Identity)
        } else if value == 2 {
            Some(Orientation::FlipH)
        } else if value == 3 {
            Some(Orientation::Rotate180)
        } else if value == 4 {
            Some(Orientation::FlipV)
        } else if value == 5 {
            Some(Orientation::Transpose)
        } else if value == 6 {
            Some(Orientation::Rotate90)
        } else if value == 7 {
            Some(Orientation::Transverse)
        } else if value == 8 {
            Some(Orientation::Rotate270)
        } else {
            None
        }
    }

    /// The value of the EXIF orientation tag.
    pub fn to_exif(self) -> (r: u8)
        ensures
            r == self.code(),
    {
        match self {
            Orientation::Identity => 1,
            Orientation::FlipH => 2,
            Orientation::Rotate180 => 3,
            Orientation::FlipV => 4,
            Orientation::Transpose => 5,
            Orientation::Rotate90 => 6,
            Orientation::Transverse => 7,
            Orientation::Rotate270 => 8,
        }
    }
}

/// Every orientation has a tag value from 1 to 8, which stands for it and for
/// no other; no other number stands for one.
pub proof fn lemma_orientation_codes(o: Orientation, value: int)
    ensures
        1 <= o.code() <= 8,
        Orientation::of_code(o.code() as int) == Some(o),
        Orientation::of_code(value) is Some <==> 1 <= value <= 8,
        Orientation::of_code(value) == Some(o) <==> value == o.code(),
{
}

impl Default for Orientation {
    fn default() -> (r: Self)
        ensures
            r == Orientation::Identity,
    {
        Orientation::Identity
    }
}

/// How a decoder should treat the orientation of what it decodes.
#[derive(Clone, Copy, Debug, PartialEq, Eq, Hash, Structural)]
#[non_exhaustive]
pub enum OrientationHint {
    /// Leave the pixels as stored and report the intrinsic orientation.
    Preserve,
    /// Resolve the intrinsic orientation to [`Orientation::Identity`].
    Correct,
    /// Resolve the intrinsic orientation, then apply one more transform.
    CorrectAndTransform(Orientation),
    /// Ignore the intrinsic orientation and apply exactly this transform.
    ExactTransform(Orientation),
}

impl Default for OrientationHint {
    fn default() -> (r: Self)
        ensures
            r == OrientationHint::Preserve,
    {
        OrientationHint::Preserve
    }
}

impl OrientationHint {
    /// Whether the decoder transforms the pixels (`true`) or leaves them in
    /// their stored orientation (`false`).
    #[must_use]
    pub fn bakes(self) -> (b: bool)
        ensures
            b == (self != OrientationHint::Preserve),
    {
        match self {
            OrientationHint::Preserve => false,
            _ => true,
        }
    }
}

/// The numbers of the EXIF orientation tag, one by one.
pub proof fn law_orientation_numbers(value: int)
    ensures
        Orientation::Identity.code() == 1,
        Orientation::FlipH.code() == 2,
        Orientation::Rotate180.code() == 3,
        Orientation::FlipV.code() == 4,
        Orientation::Transpose.code() == 5,
        Orientation::Rotate90.code() == 6,
        Orientation::Transverse.code() == 7,
        Orientation::Rotate270.code() == 8,
        value < 1 || value > 8 ==> Orientation::of_code(value) is None,
        1 <= value <= 8 ==> (Orientation::of_code(value) matches Some(o) && o.code() == value),
{
}

} // verus!
