use vstd::prelude::*;
use crate::buffers::Rgb8;

verus! {

/// Which channels enter the squared color distance to the background.
/// `All` compares red, green and blue; `RedGreen` reproduces the legacy
/// two-channel comparison and is not the default.
#[derive(Clone, Copy, Debug, PartialEq, Eq, Structural)]
pub enum ChannelSubset {
    All,
    RedGreen,
}

/// Every tunable of the pipeline. Blur radii are Gaussian sigmas in whole
/// pixels; a radius of zero skips that blur entirely. The relief strength
/// is given in thousandths (a value of 5 means 0.005).
#[derive(Clone, Copy, Debug)]
pub struct PipelineConfig {
    /// Reference background color.
    pub background: Rgb8,
    /// Squared color distance at or above which a pixel is foreground.
    pub threshold: u32,
    /// Channels compared against the background color.
    pub channels: ChannelSubset,
    /// Side of every canonical (output) texture, in pixels.
    pub resolution: u32,
    /// Pixels added to the larger bounding-box extent before rounding the
    /// square side up to an even number.
    pub margin: u32,
    /// Mask anti-aliasing blur radius; zero keeps the mask crisp.
    pub mask_blur: u32,
    /// Surface-luminance softening blur radius.
    pub surface_blur: u32,
    /// Working resolution of the dome height-field synthesis.
    pub dome_size: u32,
    /// Zero border absorbing dome blur spillover; also the dome blur radius.
    pub dome_border: u32,
    /// Weight of the dome in the height blend.
    pub dome_weight: u32,
    /// Weight of the softened surface in the height blend.
    pub surface_weight: u32,
    /// Relief strength of the normal map, in thousandths; larger is flatter.
    pub relief_thousandths: u32,
}

impl PipelineConfig {
    /// A configuration the pipeline can run with: the canonical resolution
    /// is at least 2 (normal extraction reads a clamped forward neighbor),
    /// the dome canvas fits the resampler, the blend weights do not vanish
    /// and cannot overflow the blend arithmetic, and the relief strength is
    /// positive.
    pub open spec fn valid(self) -> bool {
        &&& 2 <= self.resolution <= 8192
        &&& self.margin <= 4096
        &&& self.mask_blur <= 1000
        &&& self.surface_blur <= 1000
        &&& 1 <= self.dome_size <= 8192
        &&& self.dome_size + 2 * self.dome_border <= 8192
        &&& self.dome_border <= 1000
        &&& 1 <= self.dome_weight + self.surface_weight <= 1000
        &&& 1 <= self.relief_thousandths <= 10000
    }

    /// Runtime check of `valid`, for callers outside the proof.
    pub fn is_valid(&self) -> (r: bool)
        ensures
            r == self.valid(),
    {
        let canvas: u64 = self.dome_size as u64 + 2 * (self.dome_border as u64);
        let weights: u64 = self.dome_weight as u64 + self.surface_weight as u64;
        2 <= self.resolution && self.resolution <= 8192
            && self.margin <= 4096
            && self.mask_blur <= 1000
            && self.surface_blur <= 1000
            && 1 <= self.dome_size && self.dome_size <= 8192
            && canvas <= 8192
            && self.dome_border <= 1000
            && 1 <= weights && weights <= 1000
            && 1 <= self.relief_thousandths && self.relief_thousandths <= 10000
    }
}

impl Default for PipelineConfig {
    /// The documented defaults: near-black background, threshold 20
    /// squared, all three channels, canonical resolution 1024, margin 20,
    /// mask blur 3, surface blur 2, dome working size 128 with border 16,
    /// blend 19:1 and relief strength 0.005.
    fn default() -> (c: PipelineConfig)
        ensures
            c.valid(),
            c.background == (Rgb8 { r: 18, g: 18, b: 18 }),
            c.threshold == 400,
            c.channels == ChannelSubset::All,
            c.resolution == 1024,
            c.margin == 20,
            c.mask_blur == 3,
            c.surface_blur == 2,
            c.dome_size == 128,
            c.dome_border == 16,
            c.dome_weight == 19,
            c.surface_weight == 1,
            c.relief_thousandths == 5,
    {
        PipelineConfig {
            background: Rgb8 { r: 18, g: 18, b: 18 },
            threshold: 400,
            channels: ChannelSubset::All,
            resolution: 1024,
            margin: 20,
            mask_blur: 3,
            surface_blur: 2,
            dome_size: 128,
            dome_border: 16,
            dome_weight: 19,
            surface_weight: 1,
            relief_thousandths: 5,
        }
    }
}

} // verus!
