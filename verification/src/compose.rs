use vstd::prelude::*;
use crate::buffers::{Gray16Image, Rgb8Image, RgbaImage};

verus! {

/// The RGBA composite of a color image and a mask over `n` pixels: the
/// three color bytes are copied verbatim, the alpha byte is the 16-bit
/// mask confidence rescaled to 8 bits (integer division by 257).
pub open spec fn rgba_spec(pixels: Seq<u8>, mask: Seq<u16>, n: int) -> Seq<u8> {
    Seq::new((4 * n) as nat, |k: int|
        {
            let i = k / 4;
            let ch = k % 4;
            if ch < 3 {
                pixels[3 * i + ch]
            } else {
                (mask[i] / 257) as u8
            }
        },
    )
}

/// Merges the canonical color image with the canonical mask into the
/// final RGBA texture, alpha carrying the foreground confidence.
pub fn compose_rgba(color: &Rgb8Image, mask: &Gray16Image) -> (out: RgbaImage)
    requires
        color.wf(),
        mask.wf(),
        color.width == mask.width,
        color.height == mask.height,
        color.width <= 8192,
        color.height <= 8192,
    ensures
        out.wf(),
        out.width == color.width,
        out.height == color.height,
        out.data@ == rgba_spec(
            color.data@,
            mask.data@,
            color.width as int * color.height as int,
        ),
{
    proof {
        assert(1 <= (color.width as int) * (color.height as int) <= 0x400_0000 && 3 * ((
        color.width as int) * (color.height as int)) == 3 * (color.width as int) * (color.height
            as int) && 4 * ((color.width as int) * (color.height as int)) == 4 * (color.width
            as int) * (color.height as int)) by (nonlinear_arith)
            requires
                1 <= color.width <= 8192,
                1 <= color.height <= 8192,
        ;
    }
    let n: usize = color.width as usize * color.height as usize;
    let ghost gspec = rgba_spec(color.data@, mask.data@, color.width as int * color.height as int);
    let mut data: Vec<u8> = Vec::new();
    let mut i: usize = 0;
    while i < n
        invariant
            color.wf(),
            mask.wf(),
            color.width == mask.width,
            color.height == mask.height,
            n == color.width * color.height,
            n <= 0x400_0000,
            color.data@.len() == 3 * n,
            mask.data@.len() == n,
            gspec == rgba_spec(color.data@, mask.data@, n as int),
            gspec.len() == 4 * n,
            i <= n,
            data@.len() == 4 * i,
            forall|j: int| 0 <= j < 4 * i ==> data@[j] == gspec[j],
        decreases n - i,
    {
        data.push(color.data[3 * i]);
        data.push(color.data[3 * i + 1]);
        data.push(color.data[3 * i + 2]);
        data.push((mask.data[i] / 257) as u8);
        proof {
            assert forall|j: int| 4 * i <= j < 4 * (i + 1) implies data@[j] == gspec[j] by {
                assert(j / 4 == i as int && (j == 4 * i ==> j % 4 == 0) && (j == 4 * i + 1 ==> j
                    % 4 == 1) && (j == 4 * i + 2 ==> j % 4 == 2) && (j == 4 * i + 3 ==> j % 4
                    == 3)) by (nonlinear_arith)
                    requires
                        4 * i <= j < 4 * (i + 1),
                ;
            }
        }
        i = i + 1;
    }
    let out = RgbaImage { width: color.width, height: color.height, data };
    assert(out.data@ =~= gspec);
    out
}

} // verus!
