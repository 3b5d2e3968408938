use vstd::prelude::*;
use crate::buffers::{lemma_flat_index, lemma_index_coords, Gray16Image, Gray8Image};
use crate::config::PipelineConfig;
use crate::filters::{
    blur_gray16, blur_gray8, gauss_blur_u16, gauss_blur_u8, resize_catmullrom_u16, resize_gray16,
};

verus! {

/// A square image of side `size` embedded centered in a zero-filled canvas
/// of side `size + 2 * border`; the border absorbs blur spillover.
pub open spec fn embed_spec(m: Seq<u16>, size: int, border: int) -> Seq<u16> {
    let canvas = size + 2 * border;
    Seq::new((canvas * canvas) as nat, |i: int|
        {
            let x = i % canvas;
            let y = i / canvas;
            if border <= x < border + size && border <= y < border + size {
                m[(y - border) * size + (x - border)]
            } else {
                0u16
            }
        },
    )
}

/// The centered square window of side `size` cut back out of a canvas of
/// side `size + 2 * border`.
pub open spec fn crop_center_spec(c: Seq<u16>, size: int, border: int) -> Seq<u16> {
    let canvas = size + 2 * border;
    Seq::new((size * size) as nat, |i: int|
        {
            let x = i % size;
            let y = i / size;
            c[(y + border) * canvas + (x + border)]
        },
    )
}

/// The weighted blend of the dome with the rescaled soft surface: each
/// 8-bit surface value is first raised to the 16-bit range (factor 257).
pub open spec fn blend_spec(dome: Seq<u16>, soft: Seq<u8>, dw: int, sw: int) -> Seq<u16> {
    Seq::new(dome.len(), |i: int| ((dome[i] * dw + soft[i] * 257 * sw) / (dw + sw)) as u16)
}

/// The dome height field: the canonical mask downsampled to the working
/// size, embedded in a zero border, blurred with a border-sized radius,
/// cropped back out and upsampled to the canonical resolution.
pub open spec fn dome_spec(mask: Seq<u16>, cfg: PipelineConfig) -> Seq<u16> {
    let w = cfg.dome_size as int;
    let b = cfg.dome_border as int;
    let r = cfg.resolution as int;
    let down = resize_catmullrom_u16(mask, r, r, w, w);
    let padded = embed_spec(down, w, b);
    let blurred = if b == 0 {
        padded
    } else {
        gauss_blur_u16(padded, w + 2 * b, w + 2 * b, b)
    };
    let cropped = crop_center_spec(blurred, w, b);
    resize_catmullrom_u16(cropped, w, w, r, r)
}

/// The softened surface luminance entering the blend.
pub open spec fn soft_surface_spec(surface: Seq<u8>, cfg: PipelineConfig) -> Seq<u8> {
    if cfg.surface_blur == 0 {
        surface
    } else {
        gauss_blur_u8(surface, cfg.resolution as int, cfg.resolution as int, cfg.surface_blur as int)
    }
}

/// The complete height field of a canonical mask and surface.
pub open spec fn height_spec(mask: Seq<u16>, surface: Seq<u8>, cfg: PipelineConfig) -> Seq<u16> {
    blend_spec(
        dome_spec(mask, cfg),
        soft_surface_spec(surface, cfg),
        cfg.dome_weight as int,
        cfg.surface_weight as int,
    )
}

/// A blended height value never leaves the 16-bit range: the numerator is
/// at most the channel maximum times the weight sum.
pub proof fn lemma_blend_bounded(d: int, s: int, dw: int, sw: int)
    requires
        0 <= d <= 65535,
        0 <= s <= 255,
        0 <= dw,
        0 <= sw,
        1 <= dw + sw,
    ensures
        0 <= (d * dw + s * 257 * sw) / (dw + sw) <= 65535,
{
    assert(0 <= (d * dw + s * 257 * sw) / (dw + sw) <= 65535) by (nonlinear_arith)
        requires
            0 <= d <= 65535,
            0 <= s <= 255,
            0 <= dw,
            0 <= sw,
            1 <= dw + sw,
    ;
}

/// Side lengths up to the resampler cap keep their square, and the square
/// of the bordered canvas, inside the buffer cap.
proof fn lemma_square_area(side: int)
    requires
        1 <= side <= 8192,
    ensures
        1 <= side * side <= 0x400_0000,
{
    assert(1 <= side * side <= 0x400_0000) by (nonlinear_arith)
        requires
            1 <= side <= 8192,
    ;
}

/// Embeds a square image centered in a zero-filled canvas that adds
/// `border` pixels on every edge.
pub fn embed_with_border(m: &Gray16Image, border: u32) -> (out: Gray16Image)
    requires
        m.wf(),
        m.width == m.height,
        m.width + 2 * border <= 8192,
    ensures
        out.wf(),
        out.width == m.width + 2 * border,
        out.height == out.width,
        out.data@ == embed_spec(m.data@, m.width as int, border as int),
{
    let size: usize = m.width as usize;
    let canvas: usize = size + 2 * (border as usize);
    proof {
        lemma_square_area(canvas as int);
    }
    let n: usize = canvas * canvas;
    let b: usize = border as usize;
    let ghost gspec = embed_spec(m.data@, m.width as int, border as int);
    let mut data: Vec<u16> = Vec::new();
    let mut i: usize = 0;
    while i < n
        invariant
            m.wf(),
            m.width == m.height,
            size == m.width,
            b == border,
            canvas == size + 2 * b,
            1 <= canvas <= 8192,
            n == canvas * canvas,
            gspec == embed_spec(m.data@, m.width as int, border as int),
            gspec.len() == n,
            i <= n,
            data@.len() == i,
            forall|j: int| 0 <= j < i ==> data@[j] == gspec[j],
        decreases n - i,
    {
        proof {
            lemma_index_coords(i as int, canvas as int, canvas as int);
        }
        let x: usize = i % canvas;
        let y: usize = i / canvas;
        if b <= x && x < b + size && b <= y && y < b + size {
            proof {
                lemma_flat_index(x as int - b, y as int - b, size as int, size as int);
            }
            data.push(m.data[(y - b) * size + (x - b)]);
        } else {
            data.push(0u16);
        }
        i = i + 1;
    }
    let out = Gray16Image { width: m.width + 2 * border, height: m.width + 2 * border, data };
    assert(out.data@ =~= gspec);
    out
}

/// Cuts the centered square window back out of a bordered canvas,
/// discarding `border` pixels on every edge.
pub fn crop_center(c: &Gray16Image, size: u32, border: u32) -> (out: Gray16Image)
    requires
        c.wf(),
        1 <= size,
        c.width == size + 2 * border,
        c.height == c.width,
        c.width <= 8192,
    ensures
        out.wf(),
        out.width == size,
        out.height == size,
        out.data@ == crop_center_spec(c.data@, size as int, border as int),
{
    let s: usize = size as usize;
    let canvas: usize = c.width as usize;
    let b: usize = border as usize;
    proof {
        lemma_square_area(s as int);
    }
    let n: usize = s * s;
    let ghost gspec = crop_center_spec(c.data@, size as int, border as int);
    let mut data: Vec<u16> = Vec::new();
    let mut i: usize = 0;
    while i < n
        invariant
            c.wf(),
            s == size,
            b == border,
            canvas == c.width,
            c.height == c.width,
            canvas == s + 2 * b,
            1 <= s,
            canvas <= 8192,
            n == s * s,
            gspec == crop_center_spec(c.data@, size as int, border as int),
            gspec.len() == n,
            i <= n,
            data@.len() == i,
            forall|j: int| 0 <= j < i ==> data@[j] == gspec[j],
        decreases n - i,
    {
        proof {
            lemma_index_coords(i as int, s as int, s as int);
        }
        let x: usize = i % s;
        let y: usize = i / s;
        proof {
            lemma_flat_index(x as int + b, y as int + b, canvas as int, canvas as int);
        }
        data.push(c.data[(y + b) * canvas + (x + b)]);
        i = i + 1;
    }
    let out = Gray16Image { width: size, height: size, data };
    assert(out.data@ =~= gspec);
    out
}

/// Blends the dome height field with the rescaled soft surface luminance.
/// The arithmetic stays within `u32` and the result within the 16-bit
/// range, so the extended-precision invariant of the height field holds.
pub fn blend_height(dome: &Gray16Image, soft: &Gray8Image, dome_weight: u32, surface_weight: u32)
    -> (out: Gray16Image)
    requires
        dome.wf(),
        soft.wf(),
        dome.width == soft.width,
        dome.height == soft.height,
        1 <= dome_weight + surface_weight <= 1000,
    ensures
        out.wf(),
        out.width == dome.width,
        out.height == dome.height,
        out.data@ == blend_spec(dome.data@, soft.data@, dome_weight as int, surface_weight as int),
{
    let n: usize = dome.data.len();
    let ghost gspec = blend_spec(
        dome.data@,
        soft.data@,
        dome_weight as int,
        surface_weight as int,
    );
    let mut data: Vec<u16> = Vec::new();
    let mut i: usize = 0;
    while i < n
        invariant
            dome.wf(),
            soft.wf(),
            dome.width == soft.width,
            dome.height == soft.height,
            n == dome.data@.len(),
            1 <= dome_weight + surface_weight <= 1000,
            gspec == blend_spec(
                dome.data@,
                soft.data@,
                dome_weight as int,
                surface_weight as int,
            ),
            gspec.len() == n,
            i <= n,
            data@.len() == i,
            forall|j: int| 0 <= j < i ==> data@[j] == gspec[j],
        decreases n - i,
    {
        let d: u64 = dome.data[i] as u64;
        let s: u64 = soft.data[i] as u64;
        proof {
            lemma_blend_bounded(d as int, s as int, dome_weight as int, surface_weight as int);
            assert(d * (dome_weight as u64) + s * 257 * (surface_weight as u64) <= 0xFFFF_FFFF)
                by (nonlinear_arith)
                requires
                    d <= 65535,
                    s <= 255,
                    dome_weight + surface_weight <= 1000,
            ;
        }
        let v: u64 = (d * dome_weight as u64 + s * 257 * surface_weight as u64) / (dome_weight
            as u64 + surface_weight as u64);
        data.push(v as u16);
        i = i + 1;
    }
    let out = Gray16Image { width: dome.width, height: dome.height, data };
    assert(out.data@ =~= gspec);
    out
}

/// Synthesizes the height field from the canonical mask and surface:
/// a low-frequency dome from the silhouette, modulated by the softened
/// surface luminance.
pub fn synthesize_height(mask: &Gray16Image, surface: &Gray8Image, cfg: &PipelineConfig) -> (hf:
    Gray16Image)
    requires
        cfg.valid(),
        mask.wf(),
        surface.wf(),
        mask.width == cfg.resolution,
        mask.height == cfg.resolution,
        surface.width == cfg.resolution,
        surface.height == cfg.resolution,
    ensures
        hf.wf(),
        hf.width == cfg.resolution,
        hf.height == cfg.resolution,
        hf.data@ == height_spec(mask.data@, surface.data@, *cfg),
{
    proof {
        lemma_square_area(cfg.dome_size as int);
        lemma_square_area(cfg.resolution as int);
    }
    let down = resize_gray16(mask, cfg.dome_size, cfg.dome_size);
    let padded = embed_with_border(&down, cfg.dome_border);
    let blurred = if cfg.dome_border == 0 {
        padded
    } else {
        blur_gray16(&padded, cfg.dome_border as u16)
    };
    let cropped = crop_center(&blurred, cfg.dome_size, cfg.dome_border);
    let dome = resize_gray16(&cropped, cfg.resolution, cfg.resolution);
    let soft = if cfg.surface_blur == 0 {
        copy_gray8(surface)
    } else {
        blur_gray8(surface, cfg.surface_blur as u16)
    };
    blend_height(&dome, &soft, cfg.dome_weight, cfg.surface_weight)
}

/// A plain copy of an 8-bit single-channel image.
fn copy_gray8(img: &Gray8Image) -> (out: Gray8Image)
    requires
        img.wf(),
    ensures
        out.wf(),
        out.width == img.width,
        out.height == img.height,
        out.data@ == img.data@,
{
    let n: usize = img.data.len();
    let mut data: Vec<u8> = Vec::new();
    let mut i: usize = 0;
    while i < n
        invariant
            img.wf(),
            n == img.data@.len(),
            i <= n,
            data@.len() == i,
            forall|j: int| 0 <= j < i ==> data@[j] == img.data@[j],
        decreases n - i,
    {
        data.push(img.data[i]);
        i = i + 1;
    }
    let out = Gray8Image { width: img.width, height: img.height, data };
    assert(out.data@ =~= img.data@);
    out
}

} // verus!
