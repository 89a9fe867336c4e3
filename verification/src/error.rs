//! The error taxonomy of the gateway. Every failure of an intercepted
//! request is terminal and maps to one of these variants.

use vstd::prelude::*;

verus! {

/// Why a request could not be served.
#[derive(Debug, Clone, Copy, PartialEq, Eq, Structural)]
pub enum WmsError {
    /// The request's layer list resolved to no usable layer.
    InvalidLayer,
    /// A downstream WMS call failed (connection, timeout, bad status or body).
    DownstreamWmsError,
    /// A fetched reference image could not be decoded, or the transcoded
    /// output could not be encoded.
    ImageError,
}

impl WmsError {
    /// A short diagnostic, deliberately free of downstream detail.
    pub fn message(&self) -> (m: &'static str)
        ensures
            m@ == spec_error_message(*self),
    {
        match self {
            WmsError::InvalidLayer => "Invalid layer in WMS request",
            WmsError::DownstreamWmsError => "Downstream wms error",
            WmsError::ImageError => "Image error",
        }
    }
}

/// The diagnostic text of each error variant.
pub open spec fn spec_error_message(e: WmsError) -> Seq<char> {
    match e {
        WmsError::InvalidLayer => "Invalid layer in WMS request"@,
        WmsError::DownstreamWmsError => "Downstream wms error"@,
        WmsError::ImageError => "Image error"@,
    }
}

} // verus!
