use vstd::prelude::*;

verus! {

/// The ways the scanning pipeline can fail. Every failure aborts the whole
/// run: no partial textures are ever produced.
#[derive(Clone, Copy, Debug, PartialEq, Eq, Structural)]
pub enum PipelineError {
    /// Decoding the input or encoding an output failed at the boundary.
    IoError,
    /// The input image is not 8-bit RGB without alpha.
    UnsupportedPixelFormat,
    /// No pixel reached full foreground confidence, so no bounding box
    /// exists and no crop can be taken.
    NoForegroundDetected,
    /// The configuration is unusable (for example a zero canonical
    /// resolution).
    InvalidConfiguration,
}

} // verus!
