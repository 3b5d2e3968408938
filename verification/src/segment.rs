use vstd::prelude::*;
use crate::buffers::{Gray16Image, Rgb8, Rgb8Image, CHANNEL_MAX};
use crate::config::{ChannelSubset, PipelineConfig};

verus! {

/// Snap level of the re-binarization step: seven eighths of the channel
/// maximum. A blurred mask value at or above it is full foreground.
pub const SNAP_LEVEL: u16 = 57337;

/// Squared Euclidean color distance over the selected channel subset.
pub open spec fn distance_sq(c1: Rgb8, c2: Rgb8, channels: ChannelSubset) -> int {
    let rg = (c1.r - c2.r) * (c1.r - c2.r) + (c1.g - c2.g) * (c1.g - c2.g);
    match channels {
        ChannelSubset::All => rg + (c1.b - c2.b) * (c1.b - c2.b),
        ChannelSubset::RedGreen => rg,
    }
}

/// The square of a difference of two channel bytes stays within a byte's
/// squared range.
proof fn lemma_diff_square_bounded(d: int)
    requires
        -255 <= d <= 255,
    ensures
        0 <= d * d <= 65025,
{
    assert(0 <= d * d <= 65025) by (nonlinear_arith)
        requires
            -255 <= d <= 255,
    ;
}

/// Squared Euclidean distance between two colors over the selected channel
/// subset; at most `3 * 255 * 255`.
pub fn rgb_distance_squared(c1: &Rgb8, c2: &Rgb8, channels: ChannelSubset) -> (d: u32)
    ensures
        d == distance_sq(*c1, *c2, channels),
{
    let dr: i32 = c1.r as i32 - c2.r as i32;
    let dg: i32 = c1.g as i32 - c2.g as i32;
    let db: i32 = c1.b as i32 - c2.b as i32;
    proof {
        lemma_diff_square_bounded(dr as int);
        lemma_diff_square_bounded(dg as int);
        lemma_diff_square_bounded(db as int);
    }
    let rg: u32 = (dr * dr) as u32 + (dg * dg) as u32;
    match channels {
        ChannelSubset::All => rg + (db * db) as u32,
        ChannelSubset::RedGreen => rg,
    }
}

/// The color of the pixel at flat index `i` of an RGB byte buffer.
pub open spec fn pixel_color(pixels: Seq<u8>, i: int) -> Rgb8 {
    Rgb8 { r: pixels[3 * i], g: pixels[3 * i + 1], b: pixels[3 * i + 2] }
}

/// Whether the pixel at flat index `i` counts as foreground: its distance
/// to the background color reaches the threshold.
pub open spec fn is_foreground(pixels: Seq<u8>, i: int, cfg: PipelineConfig) -> bool {
    distance_sq(pixel_color(pixels, i), cfg.background, cfg.channels) >= cfg.threshold
}

/// The initial binary mask of an RGB byte buffer with `n` pixels:
/// 0 where the pixel is close to the background, the channel maximum
/// where it is foreground.
pub open spec fn mask_spec(pixels: Seq<u8>, n: int, cfg: PipelineConfig) -> Seq<u16> {
    Seq::new(n as nat, |i: int| if is_foreground(pixels, i, cfg) { CHANNEL_MAX } else { 0u16 })
}

/// The re-binarized form of a blurred mask: values at or above the snap
/// level become the channel maximum, all others become 0.
pub open spec fn snap_spec(m: Seq<u16>) -> Seq<u16> {
    Seq::new(m.len(), |i: int| if m[i] >= SNAP_LEVEL { CHANNEL_MAX } else { 0u16 })
}

/// The mask invariant: after re-binarization every value is exactly zero
/// or the channel maximum.
pub proof fn lemma_snap_binary(m: Seq<u16>)
    ensures
        forall|i: int|
            0 <= i < snap_spec(m).len() ==> snap_spec(m)[i] == 0u16 || snap_spec(m)[i]
                == CHANNEL_MAX,
{
}

/// Re-binarization is idempotent: snapping an already snapped mask
/// changes nothing.
pub proof fn lemma_snap_idempotent(m: Seq<u16>)
    ensures
        snap_spec(snap_spec(m)) == snap_spec(m),
{
    let s = snap_spec(m);
    assert forall|i: int| 0 <= i < s.len() implies snap_spec(s)[i] == s[i] by {
        if m[i] >= SNAP_LEVEL {
            assert(s[i] == CHANNEL_MAX);
        } else {
            assert(s[i] == 0u16);
        }
    }
    assert(snap_spec(snap_spec(m)) =~= snap_spec(m));
}

/// Classifies every source pixel by color distance to the background,
/// producing the initial binary mask.
pub fn make_mask(img: &Rgb8Image, cfg: &PipelineConfig) -> (m: Gray16Image)
    requires
        img.wf(),
    ensures
        m.wf(),
        m.width == img.width,
        m.height == img.height,
        m.data@ == mask_spec(img.data@, img.width as int * img.height as int, *cfg),
{
    proof {
        crate::buffers::lemma_pixel_count(img.width as int, img.height as int);
    }
    let n: usize = img.width as usize * img.height as usize;
    let mut data: Vec<u16> = Vec::new();
    let mut i: usize = 0;
    while i < n
        invariant
            n == img.width * img.height,
            n <= 0x2000_0000,
            img.wf(),
            img.data@.len() == 3 * n,
            i <= n,
            data@.len() == i,
            forall|j: int| 0 <= j < i ==> data@[j] == mask_spec(
                img.data@,
                n as int,
                *cfg,
            )[j],
        decreases n - i,
    {
        let c = Rgb8 {
            r: img.data[3 * i],
            g: img.data[3 * i + 1],
            b: img.data[3 * i + 2],
        };
        let d = rgb_distance_squared(&c, &cfg.background, cfg.channels);
        if d >= cfg.threshold {
            data.push(CHANNEL_MAX);
        } else {
            data.push(0u16);
        }
        i = i + 1;
    }
    let m = Gray16Image { width: img.width, height: img.height, data };
    assert(m.data@ =~= mask_spec(img.data@, n as int, *cfg));
    m
}

/// Re-binarizes a blurred mask: snaps confident values to the channel
/// maximum and all others to zero.
pub fn snap_mask(m: &Gray16Image) -> (r: Gray16Image)
    requires
        m.wf(),
    ensures
        r.wf(),
        r.width == m.width,
        r.height == m.height,
        r.data@ == snap_spec(m.data@),
{
    let n: usize = m.data.len();
    let mut data: Vec<u16> = Vec::new();
    let mut i: usize = 0;
    while i < n
        invariant
            n == m.data@.len(),
            i <= n,
            data@.len() == i,
            forall|j: int| 0 <= j < i ==> data@[j] == snap_spec(m.data@)[j],
        decreases n - i,
    {
        if m.data[i] >= SNAP_LEVEL {
            data.push(CHANNEL_MAX);
        } else {
            data.push(0u16);
        }
        i = i + 1;
    }
    let r = Gray16Image { width: m.width, height: m.height, data };
    assert(r.data@ =~= snap_spec(m.data@));
    r
}

} // verus!
