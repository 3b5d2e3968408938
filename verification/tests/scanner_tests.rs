use fish_scanner::bbox::extract_bbox;
use fish_scanner::buffers::{Gray16Image, Gray8Image, Rgb8, Rgb8Image};
use fish_scanner::compose::compose_rgba;
use fish_scanner::config::{ChannelSubset, PipelineConfig};
use fish_scanner::errors::PipelineError;
use fish_scanner::height::{blend_height, crop_center, embed_with_border, synthesize_height};
use fish_scanner::normal::{generate_normal_map, isqrt};
use fish_scanner::pipeline::run_pipeline;
use fish_scanner::region::{crop_color, crop_mask, select_square_region, SquareRegion};
use fish_scanner::segment::{make_mask, rgb_distance_squared, snap_mask};

fn solid_image(width: u32, height: u32, color: (u8, u8, u8)) -> Rgb8Image {
    let mut data = Vec::new();
    for _ in 0..(width as usize * height as usize) {
        data.push(color.0);
        data.push(color.1);
        data.push(color.2);
    }
    Rgb8Image { width, height, data }
}

fn set_pixel(img: &mut Rgb8Image, x: u32, y: u32, color: (u8, u8, u8)) {
    let base = 3 * (y as usize * img.width as usize + x as usize);
    img.data[base] = color.0;
    img.data[base + 1] = color.1;
    img.data[base + 2] = color.2;
}

fn base_config() -> PipelineConfig {
    let mut cfg = PipelineConfig::default();
    cfg.background = Rgb8 { r: 20, g: 20, b: 20 };
    cfg.threshold = 2025;
    cfg.resolution = 64;
    cfg.dome_size = 16;
    cfg.dome_border = 4;
    cfg
}

#[test]
fn distance_all_three_channels() {
    let red = Rgb8 { r: 255, g: 0, b: 0 };
    let blue = Rgb8 { r: 0, g: 0, b: 255 };
    assert_eq!(rgb_distance_squared(&red, &blue, ChannelSubset::All), 130050);
}

#[test]
fn distance_legacy_red_green_subset() {
    let red = Rgb8 { r: 255, g: 0, b: 0 };
    let blue = Rgb8 { r: 0, g: 0, b: 255 };
    assert_eq!(rgb_distance_squared(&red, &blue, ChannelSubset::RedGreen), 65025);
    let gray = Rgb8 { r: 20, g: 20, b: 200 };
    let bg = Rgb8 { r: 20, g: 20, b: 20 };
    assert_eq!(rgb_distance_squared(&gray, &bg, ChannelSubset::RedGreen), 0);
    assert_eq!(rgb_distance_squared(&gray, &bg, ChannelSubset::All), 32400);
}

#[test]
fn mask_classifies_by_threshold() {
    let mut img = solid_image(2, 1, (20, 20, 20));
    set_pixel(&mut img, 1, 0, (255, 255, 255));
    let cfg = base_config();
    let m = make_mask(&img, &cfg);
    assert_eq!(m.data, vec![0u16, 65535u16]);
}

#[test]
fn snap_is_idempotent() {
    let m = Gray16Image {
        width: 5,
        height: 1,
        data: vec![0u16, 57336, 57337, 65535, 30000],
    };
    let once = snap_mask(&m);
    assert_eq!(once.data, vec![0u16, 0, 65535, 65535, 0]);
    let twice = snap_mask(&once);
    assert_eq!(twice.data, once.data);
}

#[test]
fn bbox_of_centered_square() {
    // A 100x100 background image with a solid 40x40 white square whose
    // rows and columns span 30..=69, segmented without any blur.
    let mut img = solid_image(100, 100, (20, 20, 20));
    for y in 30..70 {
        for x in 30..70 {
            set_pixel(&mut img, x, y, (255, 255, 255));
        }
    }
    let mut cfg = base_config();
    cfg.mask_blur = 0;
    let snapped = snap_mask(&make_mask(&img, &cfg));
    let bb = extract_bbox(&snapped).unwrap();
    assert_eq!((bb.left, bb.right, bb.top, bb.bottom), (30, 69, 30, 69));
    let reg = select_square_region(&bb, 20);
    assert_eq!(reg.side % 2, 0);
    assert!(reg.side >= 60);
    assert_eq!(reg.side, 60);
    assert_eq!((reg.origin_x, reg.origin_y), (49 - 30, 49 - 30));
}

#[test]
fn bbox_missing_when_nothing_confident() {
    let img = solid_image(10, 10, (20, 20, 20));
    let mut cfg = base_config();
    cfg.mask_blur = 0;
    let snapped = snap_mask(&make_mask(&img, &cfg));
    assert_eq!(extract_bbox(&snapped), Err(PipelineError::NoForegroundDetected));
}

#[test]
fn region_of_single_pixel_box() {
    let bb = fish_scanner::bbox::BoundingBox { left: 5, right: 5, top: 5, bottom: 5 };
    let reg = select_square_region(&bb, 0);
    assert_eq!(reg.side, 2);
    assert_eq!((reg.origin_x, reg.origin_y), (4, 4));
}

#[test]
fn crop_mask_pads_out_of_bounds_with_zero() {
    let m = Gray16Image { width: 2, height: 2, data: vec![10u16, 20, 30, 40] };
    let reg = SquareRegion { origin_x: -1, origin_y: -1, side: 2 };
    let out = crop_mask(&m, &reg);
    assert_eq!(out.data, vec![0u16, 0, 0, 10]);
}

#[test]
fn crop_color_pads_out_of_bounds_with_background() {
    let img = Rgb8Image { width: 1, height: 1, data: vec![5u8, 6, 7] };
    let reg = SquareRegion { origin_x: 0, origin_y: 0, side: 2 };
    let out = crop_color(&img, &reg, Rgb8 { r: 9, g: 8, b: 7 });
    assert_eq!(out.data, vec![5u8, 6, 7, 9, 8, 7, 9, 8, 7, 9, 8, 7]);
}

#[test]
fn embed_and_crop_center_round_trip() {
    let m = Gray16Image { width: 2, height: 2, data: vec![1u16, 2, 3, 4] };
    let padded = embed_with_border(&m, 1);
    assert_eq!(padded.width, 4);
    assert_eq!(
        padded.data,
        vec![0u16, 0, 0, 0, 0, 1, 2, 0, 0, 3, 4, 0, 0, 0, 0, 0]
    );
    let back = crop_center(&padded, 2, 1);
    assert_eq!(back.data, vec![1u16, 2, 3, 4]);
}

#[test]
fn blend_formula_and_range() {
    let dome = Gray16Image { width: 3, height: 1, data: vec![65535u16, 0, 40000] };
    let soft = Gray8Image { width: 3, height: 1, data: vec![255u8, 0, 100] };
    let out = blend_height(&dome, &soft, 19, 1);
    // (65535*19 + 255*257)/20 = 65535: the blend peaks exactly at the
    // 16-bit maximum and never overflows it.
    assert_eq!(out.data, vec![65535u16, 0, 39285]);
}

#[test]
fn compose_alpha_rescales_mask() {
    let color = Rgb8Image {
        width: 3,
        height: 1,
        data: vec![10u8, 20, 30, 1, 2, 3, 5, 5, 5],
    };
    let mask = Gray16Image { width: 3, height: 1, data: vec![65535u16, 257, 256] };
    let out = compose_rgba(&color, &mask);
    assert_eq!(
        out.data,
        vec![10u8, 20, 30, 255, 1, 2, 3, 1, 5, 5, 5, 0]
    );
}

#[test]
fn isqrt_exact_values() {
    assert_eq!(isqrt(0), 0);
    assert_eq!(isqrt(1), 1);
    assert_eq!(isqrt(3), 1);
    assert_eq!(isqrt(4), 2);
    assert_eq!(isqrt(15), 3);
    assert_eq!(isqrt(16), 4);
    assert_eq!(isqrt(1_000_000_000_000_000_000), 1_000_000_000);
    assert_eq!(isqrt(u64::MAX), 4294967295);
}

#[test]
fn flat_height_field_gives_plus_z_normals() {
    let hf = Gray16Image { width: 16, height: 16, data: vec![12345u16; 256] };
    let nm = generate_normal_map(&hf, 5);
    assert_eq!(nm.width, 16);
    for p in 0..256 {
        assert_eq!(nm.data[3 * p], 128);
        assert_eq!(nm.data[3 * p + 1], 128);
        assert_eq!(nm.data[3 * p + 2], 255);
    }
}

#[test]
fn decoded_normals_have_unit_length() {
    // A rough height field; every decoded normal must still be a unit
    // vector within the quantization tolerance of one byte per channel.
    let n = 32usize;
    let mut data = Vec::new();
    for i in 0..(n * n) {
        data.push(((i * 9973) % 65536) as u16);
    }
    let hf = Gray16Image { width: n as u32, height: n as u32, data };
    let nm = generate_normal_map(&hf, 5);
    for p in 0..(n * n) {
        let dx = nm.data[3 * p] as f64 / 127.5 - 1.0;
        let dy = nm.data[3 * p + 1] as f64 / 127.5 - 1.0;
        let dz = nm.data[3 * p + 2] as f64 / 127.5 - 1.0;
        let len = (dx * dx + dy * dy + dz * dz).sqrt();
        assert!((len - 1.0).abs() < 0.0075, "length {} at pixel {}", len, p);
    }
}

#[test]
fn all_background_image_reports_no_foreground() {
    let img = solid_image(100, 100, (20, 20, 20));
    let cfg = base_config();
    match run_pipeline(&img, &cfg) {
        Err(PipelineError::NoForegroundDetected) => {}
        Err(other) => panic!("unexpected error {:?}", other),
        Ok(_) => panic!("expected NoForegroundDetected"),
    }
}

#[test]
fn invalid_configuration_is_rejected() {
    let img = solid_image(10, 10, (200, 200, 200));
    let mut cfg = base_config();
    cfg.resolution = 0;
    assert!(!cfg.is_valid());
    match run_pipeline(&img, &cfg) {
        Err(PipelineError::InvalidConfiguration) => {}
        _ => panic!("expected InvalidConfiguration"),
    }
}

#[test]
fn default_configuration_is_valid() {
    assert!(PipelineConfig::default().is_valid());
}

#[test]
fn mask_blur_erases_a_lone_speck() {
    // A single white pixel survives a crisp segmentation but cannot reach
    // the snap level once the anti-aliasing blur has spread it out.
    let mut img = solid_image(50, 50, (20, 20, 20));
    set_pixel(&mut img, 25, 25, (255, 255, 255));
    let mut crisp = base_config();
    crisp.mask_blur = 0;
    assert!(run_pipeline(&img, &crisp).is_ok());
    let mut soft = base_config();
    soft.mask_blur = 5;
    match run_pipeline(&img, &soft) {
        Err(PipelineError::NoForegroundDetected) => {}
        _ => panic!("expected the blurred speck to vanish"),
    }
}

#[test]
fn surface_blur_softens_a_checkerboard() {
    // With the dome weighted out, the height field is exactly the
    // rescaled surface; blurring first must produce intermediate values.
    let n = 64u32;
    let mask = Gray16Image {
        width: n,
        height: n,
        data: vec![0u16; (n * n) as usize],
    };
    let mut surf_data = Vec::new();
    for y in 0..n as usize {
        for x in 0..n as usize {
            surf_data.push(if (x + y) % 2 == 0 { 255u8 } else { 0u8 });
        }
    }
    let surface = Gray8Image { width: n, height: n, data: surf_data };
    let mut cfg = base_config();
    cfg.dome_weight = 0;
    cfg.surface_weight = 1;
    cfg.surface_blur = 0;
    let crisp = synthesize_height(&mask, &surface, &cfg);
    let center = (32 * n + 32) as usize;
    assert_eq!(crisp.data[center], 255u16 * 257);
    cfg.surface_blur = 3;
    let soft = synthesize_height(&mask, &surface, &cfg);
    assert!(soft.data[center] > 1000 && soft.data[center] < 64000);
}

#[test]
fn two_tone_image_yields_exact_normals() {
    // A 100x100 background image with a 40x40 foreground square over rows
    // and columns 30..=69, red in its left half and blue in its right.
    // With margin 24 the region is the 64x64 square at origin (17, 17),
    // wholly inside the source, and at resolution 64 the resampling is an
    // exact copy, so every canonical byte is known.
    let mut img = solid_image(100, 100, (20, 20, 20));
    for y in 30..70 {
        for x in 30..50 {
            set_pixel(&mut img, x, y, (255, 0, 0));
        }
        for x in 50..70 {
            set_pixel(&mut img, x, y, (0, 0, 255));
        }
    }
    let mut cfg = base_config();
    cfg.threshold = 400;
    cfg.margin = 24;
    cfg.mask_blur = 0;
    cfg.surface_blur = 0;
    cfg.dome_weight = 0;
    cfg.surface_weight = 1;
    cfg.relief_thousandths = 5;
    let out = run_pipeline(&img, &cfg).ok().unwrap();
    assert_eq!(out.color.width, 64);
    assert_eq!(out.normal.width, 64);
    // Canonical pixel (20, 20) is source pixel (37, 37): red foreground.
    let p = 20 * 64 + 20;
    assert_eq!(
        (out.color.data[4 * p], out.color.data[4 * p + 1], out.color.data[4 * p + 2]),
        (255, 0, 0)
    );
    assert_eq!(out.color.data[4 * p + 3], 255);
    // Canonical pixel (5, 5) is source pixel (22, 22): background, so
    // the alpha is zero.
    let bgp = 5 * 64 + 5;
    assert_eq!(out.color.data[4 * bgp + 3], 0);
    // Interior pixels are flat: height is the luminance of a constant
    // color on both sides of the forward difference.
    assert_eq!(
        (out.normal.data[3 * p], out.normal.data[3 * p + 1], out.normal.data[3 * p + 2]),
        (128, 128, 255)
    );
    // Canonical pixel (32, 20) is source pixel (49, 37), the last red
    // column, and looks across the color boundary: luminances 54 (red)
    // and 18 (blue) give heights 13878 and 4626, a scaled gradient of
    // 9252000 against a relief of 327675, hence these bytes.
    let q = 20 * 64 + 32;
    assert_eq!(
        (out.normal.data[3 * q], out.normal.data[3 * q + 1], out.normal.data[3 * q + 2]),
        (255, 128, 132)
    );
}

#[test]
fn uniform_white_image_covers_everything_and_stays_flat() {
    let img = solid_image(100, 100, (255, 255, 255));
    let mut cfg = base_config();
    cfg.mask_blur = 0;
    cfg.resolution = 256;
    cfg.dome_size = 64;
    cfg.dome_border = 16;
    cfg.relief_thousandths = 100;
    let snapped = snap_mask(&make_mask(&img, &cfg));
    let bb = extract_bbox(&snapped).unwrap();
    assert_eq!((bb.left, bb.right, bb.top, bb.bottom), (0, 99, 0, 99));
    let out = run_pipeline(&img, &cfg).ok().unwrap();
    let p = 128 * 256 + 128;
    let r = out.normal.data[3 * p] as i32;
    let g = out.normal.data[3 * p + 1] as i32;
    let b = out.normal.data[3 * p + 2] as i32;
    assert!((r - 128).abs() <= 2, "r channel {}", r);
    assert!((g - 128).abs() <= 2, "g channel {}", g);
    assert!(b >= 254, "b channel {}", b);
    assert!(out.color.data[4 * p + 3] >= 254);
}

#[test]
fn pipeline_is_deterministic() {
    let mut img = solid_image(100, 100, (20, 20, 20));
    for y in 30..70 {
        for x in 30..70 {
            set_pixel(&mut img, x, y, (255, 250, 240));
        }
    }
    let cfg = base_config();
    let a = run_pipeline(&img, &cfg).ok().unwrap();
    let b = run_pipeline(&img, &cfg).ok().unwrap();
    assert_eq!(a.color.data, b.color.data);
    assert_eq!(a.normal.data, b.normal.data);
    assert_eq!((a.color.width, a.color.height), (b.color.width, b.color.height));
    assert_eq!((a.normal.width, a.normal.height), (b.normal.width, b.normal.height));
}
