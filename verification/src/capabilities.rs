//! What an encoder can write.
use vstd::prelude::*;

verus! {

/// Which color carriers an encoder's format has.
#[derive(Clone, Copy, Debug, PartialEq, Eq, Structural)]
#[non_exhaustive]
pub struct EncodeCapabilities {
    /// ICC profiles can be embedded.
    pub icc: bool,
    /// CICP code points can be written.
    pub cicp: bool,
    /// The CICP carrier is standardized and honored by decoders.
    pub cicp_is_valid_carrier: bool,
    /// CICP alone is enough for decoders to show the color.
    pub cicp_safe_sole_carrier: bool,
}

impl EncodeCapabilities {
    /// Capabilities of an encoder with no color carrier.
    pub fn new() -> (r: Self)
        ensures
            !r.icc && !r.cicp && !r.cicp_is_valid_carrier && !r.cicp_safe_sole_carrier,
    {
        EncodeCapabilities {
            icc: false,
            cicp: false,
            cicp_is_valid_carrier: false,
            cicp_safe_sole_carrier: false,
        }
    }

    /// Set whether ICC profiles can be embedded.
    pub fn with_icc(self, value: bool) -> (r: Self)
        ensures
            r == (EncodeCapabilities { icc: value, ..self }),
    {
        EncodeCapabilities { icc: value, ..self }
    }

    /// Set whether CICP code points can be written.
    pub fn with_cicp(self, value: bool) -> (r: Self)
        ensures
            r == (EncodeCapabilities { cicp: value, ..self }),
    {
        EncodeCapabilities { cicp: value, ..self }
    }

    /// Set whether the CICP carrier is standardized.
    pub fn with_cicp_is_valid_carrier(self, value: bool) -> (r: Self)
        ensures
            r == (EncodeCapabilities { cicp_is_valid_carrier: value, ..self }),
    {
        EncodeCapabilities { cicp_is_valid_carrier: value, ..self }
    }

    /// Set whether CICP alone is enough.
    pub fn with_cicp_safe_sole_carrier(self, value: bool) -> (r: Self)
        ensures
            r == (EncodeCapabilities { cicp_safe_sole_carrier: value, ..self }),
    {
        EncodeCapabilities { cicp_safe_sole_carrier: value, ..self }
    }
}

} // verus!
