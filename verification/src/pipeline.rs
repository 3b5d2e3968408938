use vstd::prelude::*;
use crate::bbox::{extract_bbox, fg, is_tight_bbox, lemma_bbox_unique, BoundingBox};
use crate::buffers::{Rgb8Image, RgbaImage};
use crate::compose::{compose_rgba, rgba_spec};
use crate::config::PipelineConfig;
use crate::errors::PipelineError;
use crate::filters::{
    blur_gray16, gauss_blur_u16, grayscale_rgb8, lemma_luma_range, luma_spec,
    resize_catmullrom_rgb8, resize_catmullrom_u16, resize_gray16, resize_rgb8,
};
use crate::height::{height_spec, synthesize_height};
use crate::normal::{generate_normal_map, normal_map_spec};
use crate::region::{
    crop_color, crop_color_spec, crop_mask, crop_mask_spec, origin_x_spec, origin_y_spec,
    select_square_region, side_spec, SquareRegion,
};
use crate::segment::{is_foreground, make_mask, mask_spec, snap_mask, snap_spec};

verus! {

/// The two pixel-aligned canonical textures the pipeline produces: the
/// RGBA color texture whose alpha masks the background, and the RGB
/// tangent-space normal map. Pixel (x, y) of one corresponds to the same
/// surface point in the other.
pub struct OutputArtifacts {
    pub color: RgbaImage,
    pub normal: Rgb8Image,
}

/// The re-binarized foreground mask of the source image: color-distance
/// segmentation, the optional anti-aliasing blur, then the confidence
/// snap.
pub open spec fn snapped_mask_spec(img: Seq<u8>, w: int, h: int, cfg: PipelineConfig) -> Seq<
    u16,
> {
    let m0 = mask_spec(img, w * h, cfg);
    let mb = if cfg.mask_blur == 0 {
        m0
    } else {
        gauss_blur_u16(m0, w, h, cfg.mask_blur as int)
    };
    snap_spec(mb)
}

/// Whether any source pixel reaches full confidence after segmentation.
pub open spec fn has_foreground(img: Seq<u8>, w: int, h: int, cfg: PipelineConfig) -> bool {
    exists|i: int| fg(snapped_mask_spec(img, w, h, cfg), i)
}

/// Every one of the `n` source pixels sits within the background
/// threshold.
pub open spec fn all_background(img: Seq<u8>, n: int, cfg: PipelineConfig) -> bool {
    forall|i: int| 0 <= i < n ==> !is_foreground(img, i, cfg)
}

/// The tight bounding box of the segmented foreground (meaningful only
/// when some pixel is foreground).
pub open spec fn pipeline_bbox(img: Seq<u8>, w: int, h: int, cfg: PipelineConfig) -> BoundingBox {
    choose|bb: BoundingBox| is_tight_bbox(snapped_mask_spec(img, w, h, cfg), w, h, bb)
}

/// The square crop region centered on that box.
pub open spec fn pipeline_region(img: Seq<u8>, w: int, h: int, cfg: PipelineConfig)
    -> SquareRegion {
    let bb = pipeline_bbox(img, w, h, cfg);
    SquareRegion {
        origin_x: origin_x_spec(bb, cfg.margin as int) as i32,
        origin_y: origin_y_spec(bb, cfg.margin as int) as i32,
        side: side_spec(bb, cfg.margin as int) as u32,
    }
}

/// The canonical (resolution-sized) mask: the square crop of the snapped
/// mask, resampled.
pub open spec fn canonical_mask_spec(img: Seq<u8>, w: int, h: int, cfg: PipelineConfig) -> Seq<
    u16,
> {
    let reg = pipeline_region(img, w, h, cfg);
    resize_catmullrom_u16(
        crop_mask_spec(snapped_mask_spec(img, w, h, cfg), w, h, reg),
        reg.side as int,
        reg.side as int,
        cfg.resolution as int,
        cfg.resolution as int,
    )
}

/// The canonical color image: the square crop of the source, padded with
/// the background color, resampled.
pub open spec fn canonical_color_spec(img: Seq<u8>, w: int, h: int, cfg: PipelineConfig) -> Seq<
    u8,
> {
    let reg = pipeline_region(img, w, h, cfg);
    resize_catmullrom_rgb8(
        crop_color_spec(img, w, h, reg, cfg.background),
        reg.side as int,
        reg.side as int,
        cfg.resolution as int,
        cfg.resolution as int,
    )
}

/// The grayscale surface: the luminance of every canonical color pixel.
pub open spec fn surface_spec(img: Seq<u8>, w: int, h: int, cfg: PipelineConfig) -> Seq<u8> {
    let cc = canonical_color_spec(img, w, h, cfg);
    Seq::new((cfg.resolution as int * cfg.resolution as int) as nat, |i: int|
        luma_spec(cc[3 * i], cc[3 * i + 1], cc[3 * i + 2]) as u8,
    )
}

/// The synthesized height field of the source image.
pub open spec fn pipeline_height_spec(img: Seq<u8>, w: int, h: int, cfg: PipelineConfig) -> Seq<
    u16,
> {
    height_spec(canonical_mask_spec(img, w, h, cfg), surface_spec(img, w, h, cfg), cfg)
}

/// The final normal map of the source image.
pub open spec fn pipeline_normal_spec(img: Seq<u8>, w: int, h: int, cfg: PipelineConfig) -> Seq<
    u8,
> {
    normal_map_spec(
        pipeline_height_spec(img, w, h, cfg),
        cfg.resolution as int,
        cfg.relief_thousandths as int,
    )
}

/// The final RGBA color texture of the source image.
pub open spec fn pipeline_color_spec(img: Seq<u8>, w: int, h: int, cfg: PipelineConfig) -> Seq<
    u8,
> {
    rgba_spec(
        canonical_color_spec(img, w, h, cfg),
        canonical_mask_spec(img, w, h, cfg),
        cfg.resolution as int * cfg.resolution as int,
    )
}

/// Everything the pipeline promises of its result: an unusable
/// configuration and an empty foreground are the only failures, each
/// reported as its own error, and a success carries exactly the two
/// canonical textures determined by the input and the configuration.
pub open spec fn pipeline_post(
    img: Seq<u8>,
    w: int,
    h: int,
    cfg: PipelineConfig,
    r: Result<OutputArtifacts, PipelineError>,
) -> bool {
    &&& !cfg.valid() ==> r == Err::<OutputArtifacts, PipelineError>(
        PipelineError::InvalidConfiguration,
    )
    &&& cfg.valid() ==> ((r is Ok) <==> has_foreground(img, w, h, cfg))
    &&& (cfg.valid() && !has_foreground(img, w, h, cfg)) ==> r == Err::<
        OutputArtifacts,
        PipelineError,
    >(PipelineError::NoForegroundDetected)
    &&& r is Ok ==> {
        let out = r->Ok_0;
        &&& out.color.wf()
        &&& out.color.width == cfg.resolution
        &&& out.color.height == cfg.resolution
        &&& out.normal.wf()
        &&& out.normal.width == cfg.resolution
        &&& out.normal.height == cfg.resolution
        &&& out.color.data@ == pipeline_color_spec(img, w, h, cfg)
        &&& out.normal.data@ == pipeline_normal_spec(img, w, h, cfg)
    }
}

/// The pipeline is deterministic: two results that both satisfy the
/// pipeline's contract for the same input bytes and configuration agree
/// on success, on the error reported, and byte for byte on both output
/// textures.
pub proof fn lemma_pipeline_deterministic(
    img: Seq<u8>,
    w: int,
    h: int,
    cfg: PipelineConfig,
    r1: Result<OutputArtifacts, PipelineError>,
    r2: Result<OutputArtifacts, PipelineError>,
)
    requires
        pipeline_post(img, w, h, cfg, r1),
        pipeline_post(img, w, h, cfg, r2),
    ensures
        r1 is Ok <==> r2 is Ok,
        r1 is Err ==> r1->Err_0 == r2->Err_0,
        r1 is Ok ==> r1->Ok_0.color.data@ == r2->Ok_0.color.data@,
        r1 is Ok ==> r1->Ok_0.normal.data@ == r2->Ok_0.normal.data@,
        r1 is Ok ==> r1->Ok_0.color.width == r2->Ok_0.color.width && r1->Ok_0.color.height == r2
            ->Ok_0.color.height,
{
}

/// Runs the whole pipeline on a decoded RGB source image: segmentation,
/// bounding box, square crop, canonical resampling, height synthesis,
/// normal extraction and compositing. Returns the two canonical textures,
/// or the error naming the first stage that cannot proceed; an input made
/// entirely of background yields `NoForegroundDetected`.
pub fn run_pipeline(img: &Rgb8Image, cfg: &PipelineConfig) -> (r: Result<
    OutputArtifacts,
    PipelineError,
>)
    requires
        img.wf(),
        img.width <= 0x4000,
        img.height <= 0x4000,
    ensures
        pipeline_post(img.data@, img.width as int, img.height as int, *cfg, r),
        cfg.valid() && all_background(
            img.data@,
            img.width as int * img.height as int,
            *cfg,
        ) ==> r == Err::<OutputArtifacts, PipelineError>(PipelineError::NoForegroundDetected),
{
    let ghost w = img.width as int;
    let ghost h = img.height as int;
    if !cfg.is_valid() {
        return Err(PipelineError::InvalidConfiguration);
    }
    let mask0 = make_mask(img, cfg);
    let blurred = if cfg.mask_blur == 0 {
        mask0
    } else {
        blur_gray16(&mask0, cfg.mask_blur as u16)
    };
    let snapped = snap_mask(&blurred);
    proof {
        assert(snapped.data@ == snapped_mask_spec(img.data@, w, h, *cfg));
        if all_background(img.data@, w * h, *cfg) {
            assert forall|i: int| 0 <= i < blurred.data@.len() implies blurred.data@[i] == 0 by {
                assert(forall|j: int|
                    0 <= j < w * h ==> #[trigger] mask_spec(img.data@, w * h, *cfg)[j] == 0u16);
            }
            assert forall|i: int| 0 <= i < snapped.data@.len() implies snapped.data@[i] != 65535u16
                by {
                assert(snapped.data@[i] == 0u16);
            }
        }
    }
    let bb = match extract_bbox(&snapped) {
        Ok(bb) => bb,
        Err(_) => {
            return Err(PipelineError::NoForegroundDetected);
        },
    };
    proof {
        let sm = snapped_mask_spec(img.data@, w, h, *cfg);
        assert(is_tight_bbox(sm, w, h, bb));
        lemma_bbox_unique(sm, w, h, bb, pipeline_bbox(img.data@, w, h, *cfg));
    }
    let reg = select_square_region(&bb, cfg.margin);
    proof {
        assert(reg == pipeline_region(img.data@, w, h, *cfg));
    }
    let sq_mask = crop_mask(&snapped, &reg);
    let sq_color = crop_color(img, &reg, cfg.background);
    proof {
        assert(1 <= (cfg.resolution as int) * (cfg.resolution as int) <= 0x400_0000 && 3 * ((
        cfg.resolution as int) * (cfg.resolution as int)) == 3 * (cfg.resolution as int) * (
        cfg.resolution as int)) by (nonlinear_arith)
            requires
                2 <= cfg.resolution <= 8192,
        ;
    }
    let canon_mask = resize_gray16(&sq_mask, cfg.resolution, cfg.resolution);
    let canon_color = resize_rgb8(&sq_color, cfg.resolution, cfg.resolution);
    let surface = grayscale_rgb8(&canon_color);
    proof {
        assert forall|i: int| 0 <= i < surface.data@.len() implies surface.data@[i]
            == surface_spec(img.data@, w, h, *cfg)[i] by {
            lemma_luma_range(
                canon_color.data@[3 * i],
                canon_color.data@[3 * i + 1],
                canon_color.data@[3 * i + 2],
            );
        }
        assert(surface.data@ =~= surface_spec(img.data@, w, h, *cfg));
    }
    let hf = synthesize_height(&canon_mask, &surface, cfg);
    let normal = generate_normal_map(&hf, cfg.relief_thousandths);
    let color = compose_rgba(&canon_color, &canon_mask);
    Ok(OutputArtifacts { color, normal })
}

} // verus!
