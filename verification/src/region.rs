use vstd::prelude::*;
use crate::bbox::BoundingBox;
use crate::buffers::{lemma_flat_index, lemma_index_coords, Gray16Image, Rgb8, Rgb8Image};

verus! {

/// Centered square region derived from a bounding box. Its origin may be
/// negative and the region may extend past the source bounds; the cropper
/// pads what falls outside.
#[derive(Clone, Copy, Debug, PartialEq, Eq, Structural)]
pub struct SquareRegion {
    pub origin_x: i32,
    pub origin_y: i32,
    pub side: u32,
}

/// Side of the square: the larger bounding-box extent (an inclusive pixel
/// count, so a box over columns 30..=69 is 40 wide) plus the margin,
/// rounded up to the next even number.
pub open spec fn side_spec(bb: BoundingBox, margin: int) -> int {
    let extent = if bb.right - bb.left >= bb.bottom - bb.top {
        bb.right - bb.left + 1
    } else {
        bb.bottom - bb.top + 1
    };
    let s0 = extent + margin;
    s0 + s0 % 2
}

/// Horizontal origin: the box midpoint (integer division, biased low)
/// minus half the side.
pub open spec fn origin_x_spec(bb: BoundingBox, margin: int) -> int {
    (bb.left + bb.right) / 2 - side_spec(bb, margin) / 2
}

/// Vertical origin: the box midpoint minus half the side.
pub open spec fn origin_y_spec(bb: BoundingBox, margin: int) -> int {
    (bb.top + bb.bottom) / 2 - side_spec(bb, margin) / 2
}

/// Derives the square region that covers the bounding box with the given
/// margin, centered on the box midpoint, with an even side. No clamping
/// to the source bounds happens here.
pub fn select_square_region(bb: &BoundingBox, margin: u32) -> (r: SquareRegion)
    requires
        bb.left <= bb.right < 0x4000,
        bb.top <= bb.bottom < 0x4000,
        margin <= 0x1000,
    ensures
        r.side == side_spec(*bb, margin as int),
        r.origin_x == origin_x_spec(*bb, margin as int),
        r.origin_y == origin_y_spec(*bb, margin as int),
        r.side % 2 == 0,
        2 <= r.side <= 0x5002,
        -0x2802 <= r.origin_x < 0x4000,
        -0x2802 <= r.origin_y < 0x4000,
{
    let bw: u32 = bb.right - bb.left + 1;
    let bh: u32 = bb.bottom - bb.top + 1;
    let extent: u32 = if bw >= bh {
        bw
    } else {
        bh
    };
    let s0: u32 = extent + margin;
    let side: u32 = s0 + s0 % 2;
    let cx: u32 = (bb.left + bb.right) / 2;
    let cy: u32 = (bb.top + bb.bottom) / 2;
    let origin_x: i32 = cx as i32 - (side / 2) as i32;
    let origin_y: i32 = cy as i32 - (side / 2) as i32;
    SquareRegion { origin_x, origin_y, side }
}

/// The mask crop: each destination pixel maps back to the source; out of
/// bounds yields zero confidence.
pub open spec fn crop_mask_spec(m: Seq<u16>, w: int, h: int, reg: SquareRegion) -> Seq<u16> {
    Seq::new((reg.side * reg.side) as nat, |i: int|
        {
            let sx = i % (reg.side as int) + reg.origin_x;
            let sy = i / (reg.side as int) + reg.origin_y;
            if 0 <= sx < w && 0 <= sy < h {
                m[sy * w + sx]
            } else {
                0u16
            }
        },
    )
}

/// The channel of an RGB color selected by an index 0, 1 or 2.
pub open spec fn rgb_chan(c: Rgb8, ch: int) -> u8 {
    if ch == 0 {
        c.r
    } else if ch == 1 {
        c.g
    } else {
        c.b
    }
}

/// The color crop: each destination pixel maps back to the source; out of
/// bounds yields the background fill color.
pub open spec fn crop_color_spec(pixels: Seq<u8>, w: int, h: int, reg: SquareRegion, fill: Rgb8)
    -> Seq<u8> {
    Seq::new((3 * reg.side * reg.side) as nat, |k: int|
        {
            let i = k / 3;
            let sx = i % (reg.side as int) + reg.origin_x;
            let sy = i / (reg.side as int) + reg.origin_y;
            if 0 <= sx < w && 0 <= sy < h {
                pixels[3 * (sy * w + sx) + k % 3]
            } else {
                rgb_chan(fill, k % 3)
            }
        },
    )
}

/// Materializes the square region of the mask, padding out-of-bounds
/// pixels with zero.
pub fn crop_mask(m: &Gray16Image, reg: &SquareRegion) -> (out: Gray16Image)
    requires
        m.wf(),
        2 <= reg.side <= 0x5002,
        -0x2802 <= reg.origin_x < 0x4000,
        -0x2802 <= reg.origin_y < 0x4000,
    ensures
        out.wf(),
        out.width == reg.side,
        out.height == reg.side,
        out.data@ == crop_mask_spec(m.data@, m.width as int, m.height as int, *reg),
{
    proof {
        lemma_side_area_bound(reg.side as int);
    }
    let side: usize = reg.side as usize;
    let n: usize = side * side;
    let w: usize = m.width as usize;
    let h: usize = m.height as usize;
    let ghost gspec = crop_mask_spec(m.data@, m.width as int, m.height as int, *reg);
    let mut data: Vec<u16> = Vec::new();
    let mut i: usize = 0;
    while i < n
        invariant
            m.wf(),
            w == m.width,
            h == m.height,
            2 <= reg.side <= 0x5002,
            -0x2802 <= reg.origin_x < 0x4000,
            -0x2802 <= reg.origin_y < 0x4000,
            side == reg.side,
            n == side * side,
            gspec == crop_mask_spec(m.data@, m.width as int, m.height as int, *reg),
            gspec.len() == n,
            i <= n,
            data@.len() == i,
            forall|j: int| 0 <= j < i ==> data@[j] == gspec[j],
        decreases n - i,
    {
        proof {
            lemma_index_coords(i as int, side as int, side as int);
        }
        let dx: usize = i % side;
        let dy: usize = i / side;
        let sx: i64 = dx as i64 + reg.origin_x as i64;
        let sy: i64 = dy as i64 + reg.origin_y as i64;
        if 0 <= sx && sx < w as i64 && 0 <= sy && sy < h as i64 {
            proof {
                lemma_flat_index(sx as int, sy as int, w as int, h as int);
            }
            data.push(m.data[(sy * w as i64 + sx) as usize]);
        } else {
            data.push(0u16);
        }
        i = i + 1;
    }
    let out = Gray16Image { width: reg.side, height: reg.side, data };
    assert(out.data@ =~= gspec);
    out
}

/// Materializes the square region of the color image, padding
/// out-of-bounds pixels with the background color.
pub fn crop_color(img: &Rgb8Image, reg: &SquareRegion, fill: Rgb8) -> (out: Rgb8Image)
    requires
        img.wf(),
        2 <= reg.side <= 0x5002,
        -0x2802 <= reg.origin_x < 0x4000,
        -0x2802 <= reg.origin_y < 0x4000,
    ensures
        out.wf(),
        out.width == reg.side,
        out.height == reg.side,
        out.data@ == crop_color_spec(img.data@, img.width as int, img.height as int, *reg, fill),
{
    proof {
        lemma_side_area_bound(reg.side as int);
        crate::buffers::lemma_pixel_count(img.width as int, img.height as int);
    }
    let side: usize = reg.side as usize;
    let n: usize = side * side;
    let w: usize = img.width as usize;
    let h: usize = img.height as usize;
    let ghost gspec = crop_color_spec(img.data@, img.width as int, img.height as int, *reg, fill);
    let mut data: Vec<u8> = Vec::new();
    let mut i: usize = 0;
    while i < n
        invariant
            img.wf(),
            w == img.width,
            h == img.height,
            img.data@.len() == 3 * (w * h),
            2 <= reg.side <= 0x5002,
            -0x2802 <= reg.origin_x < 0x4000,
            -0x2802 <= reg.origin_y < 0x4000,
            side == reg.side,
            n == side * side,
            n <= 0x1920_6004,
            gspec == crop_color_spec(img.data@, img.width as int, img.height as int, *reg, fill),
            gspec.len() == 3 * n,
            i <= n,
            data@.len() == 3 * i,
            forall|j: int| 0 <= j < 3 * i ==> data@[j] == gspec[j],
        decreases n - i,
    {
        proof {
            lemma_index_coords(i as int, side as int, side as int);
        }
        let dx: usize = i % side;
        let dy: usize = i / side;
        let sx: i64 = dx as i64 + reg.origin_x as i64;
        let sy: i64 = dy as i64 + reg.origin_y as i64;
        if 0 <= sx && sx < w as i64 && 0 <= sy && sy < h as i64 {
            proof {
                lemma_flat_index(sx as int, sy as int, w as int, h as int);
            }
            let base: usize = 3 * (sy * w as i64 + sx) as usize;
            data.push(img.data[base]);
            data.push(img.data[base + 1]);
            data.push(img.data[base + 2]);
        } else {
            data.push(fill.r);
            data.push(fill.g);
            data.push(fill.b);
        }
        proof {
            assert forall|j: int| 3 * i <= j < 3 * (i + 1) implies data@[j] == gspec[j] by {
                assert(j / 3 == i as int && (j == 3 * i ==> j % 3 == 0) && (j == 3 * i + 1 ==> j
                    % 3 == 1) && (j == 3 * i + 2 ==> j % 3 == 2)) by (nonlinear_arith)
                    requires
                        3 * i <= j < 3 * (i + 1),
                ;
            }
        }
        i = i + 1;
    }
    let out = Rgb8Image { width: reg.side, height: reg.side, data };
    assert(out.data@ =~= gspec);
    out
}

/// The padded square of a region with side at most `0x5002` stays inside
/// the buffer cap.
proof fn lemma_side_area_bound(side: int)
    requires
        2 <= side <= 0x5002,
    ensures
        side * side <= 0x1920_6004,
        3 * side * side <= 0x4B61_200C,
        3 * (side * side) == 3 * side * side,
        1 <= side * side,
{
    assert(side * side <= 0x1920_6004 && 3 * side * side <= 0x4B61_200C && 3 * (side * side) == 3
        * side * side && 1 <= side * side) by (nonlinear_arith)
        requires
            2 <= side <= 0x5002,
    ;
}

} // verus!
