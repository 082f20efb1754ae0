use vstd::prelude::*;
use vstd::string::*;

use crate::document::Document;

verus! {

/// Why a document could not be rendered to an image.
#[derive(Debug, PartialEq, Eq, Structural)]
pub enum RenderError {
    NotImplemented,
    InvalidDimensions,
}

impl RenderError {
    /// The text shown to the user for this error.
    pub fn message(&self) -> (m: String)
        ensures
            m@ == match self {
                RenderError::NotImplemented => "Rendering not yet implemented"@,
                RenderError::InvalidDimensions => "Invalid render dimensions"@,
            },
    {
        match self {
            RenderError::NotImplemented => String::from_str("Rendering not yet implemented"),
            RenderError::InvalidDimensions => String::from_str("Invalid render dimensions"),
        }
    }
}

/// Something that can turn a document into raster image bytes.
pub trait DocumentRenderer {
    fn render_to_image(&self, document: &Document, width: u32, height: u32) -> (r: Result<
        Vec<u8>,
        RenderError,
    >);
}

/// The GPU renderer; raster output is not implemented yet.
#[derive(Debug)]
pub struct WgpuRenderer {
    initialized: bool,
}

impl WgpuRenderer {
    /// Whether the GPU side has been set up.
    pub closed spec fn is_initialized(&self) -> bool {
        self.initialized
    }

    /// A renderer that has not been initialised.
    pub fn new() -> (r: Self)
        ensures
            !r.is_initialized(),
    {
        WgpuRenderer { initialized: false }
    }
}

impl Default for WgpuRenderer {
    /// Same as [`WgpuRenderer::new`].
    fn default() -> (r: Self)
        ensures
            !r.is_initialized(),
    {
        Self::new()
    }
}

impl DocumentRenderer for WgpuRenderer {
    /// Always fails: raster rendering is not implemented.
    fn render_to_image(&self, document: &Document, width: u32, height: u32) -> (r: Result<
        Vec<u8>,
        RenderError,
    >)
        ensures
            r == Err::<Vec<u8>, RenderError>(RenderError::NotImplemented),
    {
        Err(RenderError::NotImplemented)
    }
}

} // verus!
