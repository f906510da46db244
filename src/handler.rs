//! The request bodies the service accepts, and the requests they describe.

use vstd::prelude::*;
use crate::img::LogoSpec;
use crate::pipeline::RenderRequest;

verus! {

/// A request for a plain symbol.
#[allow(non_snake_case)]
pub struct QRCodeBodyDefault {
    pub data: String,
    pub width: u32,
}

/// A request for a symbol with a logo at its centre.
#[allow(non_snake_case)]
pub struct QRCodeBodyWithLogo {
    pub data: String,
    pub width: u32,
    pub logoUrl: String,
    pub logoWidth: u32,
    pub logoHeight: Option<u32>,
}

impl QRCodeBodyDefault {
    /// The request this body describes.
    pub fn into_request(self) -> (r: RenderRequest)
        ensures
            r.text@ == self.data@,
            r.width == self.width,
            r.logo is None,
    {
        RenderRequest { text: self.data, width: self.width, logo: None }
    }
}

impl QRCodeBodyWithLogo {
    /// The request this body describes.
    pub fn into_request(self) -> (r: RenderRequest)
        ensures
            r.text@ == self.data@,
            r.width == self.width,
            r.logo matches Some(l) && l.source_url@ == self.logoUrl@ && l.target_width == self.logoWidth
                && l.target_height == self.logoHeight,
    {
        RenderRequest {
            text: self.data,
            width: self.width,
            logo: Some(
                LogoSpec {
                    source_url: self.logoUrl,
                    target_width: self.logoWidth,
                    target_height: self.logoHeight,
                },
            ),
        }
    }
}

} // verus!
