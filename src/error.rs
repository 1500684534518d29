//! The errors a render call can end with.
use vstd::prelude::*;

verus! {

/// Why a render call failed.
#[derive(Debug, PartialEq, Eq)]
pub enum RenderError {
    /// The source image could not be read or decoded; holds the decoder's message.
    ImageDecode(String),
    /// The source raster has no area, or the output grid could not be resolved.
    InvalidGeometry,
    /// The sink could not be opened or written; holds the system's message.
    Io(String),
}

impl RenderError {
    /// A human-readable description of the error.
    pub fn message(&self) -> (r: String)
        ensures
            r@ == match self {
                RenderError::ImageDecode(detail) => "image decode error: "@ + detail@,
                RenderError::InvalidGeometry => "invalid geometry: the source has no area or the output size cannot be resolved"@,
                RenderError::Io(detail) => "i/o error: "@ + detail@,
            },
            r@.len() > 0,
    {
        let mut out = String::new();
        match self {
            RenderError::ImageDecode(detail) => {
                out.append("image decode error: ");
                out.append(detail.as_str());
            },
            RenderError::InvalidGeometry => {
                out.append("invalid geometry: the source has no area or the output size cannot be resolved");
            },
            RenderError::Io(detail) => {
                out.append("i/o error: ");
                out.append(detail.as_str());
            },
        }
        proof {
            reveal_strlit("image decode error: ");
            reveal_strlit("invalid geometry: the source has no area or the output size cannot be resolved");
            reveal_strlit("i/o error: ");
        }
        out
    }
}

} // verus!
