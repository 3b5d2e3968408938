use vstd::prelude::*;
use vstd::arithmetic::div_mod::lemma_fundamental_div_mod_converse;
use crate::buffers::{lemma_flat_index, lemma_index_coords, Gray16Image, Rgb8Image};

verus! {

/// The floor of the square root of a nonnegative integer.
pub open spec fn sqrt_floor(x: int) -> int {
    choose|l: int| 0 <= l && #[trigger] (l * l) <= x < (l + 1) * (l + 1)
}

/// Every nonnegative integer has a floor square root.
proof fn lemma_sqrt_exists(x: int)
    requires
        0 <= x,
    ensures
        exists|l: int| 0 <= l && #[trigger] (l * l) <= x < (l + 1) * (l + 1),
    decreases x,
{
    if x == 0 {
        let l0: int = 0;
        assert(l0 * l0 == 0 && (l0 + 1) * (l0 + 1) == 1) by (nonlinear_arith)
            requires
                l0 == 0,
        ;
        assert(0 <= l0 && l0 * l0 <= x < (l0 + 1) * (l0 + 1));
    } else {
        lemma_sqrt_exists(x - 1);
        let l = choose|l: int| 0 <= l && #[trigger] (l * l) <= x - 1 < (l + 1) * (l + 1);
        if x < (l + 1) * (l + 1) {
            assert(0 <= l && l * l <= x < (l + 1) * (l + 1));
        } else {
            assert(x == (l + 1) * (l + 1));
            assert((l + 1) * (l + 1) < (l + 2) * (l + 2)) by (nonlinear_arith)
                requires
                    0 <= l,
            ;
            assert(0 <= l + 1 && (l + 1) * (l + 1) <= x < (l + 2) * (l + 2));
        }
    }
}

/// The defining property of `sqrt_floor`.
pub proof fn lemma_sqrt_floor(x: int)
    requires
        0 <= x,
    ensures
        0 <= sqrt_floor(x),
        sqrt_floor(x) * sqrt_floor(x) <= x,
        x < (sqrt_floor(x) + 1) * (sqrt_floor(x) + 1),
{
    lemma_sqrt_exists(x);
}

/// Any value with the floor-square-root property is `sqrt_floor`.
pub proof fn lemma_sqrt_unique(x: int, l: int)
    requires
        0 <= l,
        l * l <= x,
        x < (l + 1) * (l + 1),
    ensures
        l == sqrt_floor(x),
{
    lemma_sqrt_floor(x);
    let m = sqrt_floor(x);
    if l < m {
        assert((l + 1) * (l + 1) <= m * m) by (nonlinear_arith)
            requires
                0 <= l,
                l < m,
        ;
    }
    if m < l {
        assert((m + 1) * (m + 1) <= l * l) by (nonlinear_arith)
            requires
                0 <= m,
                m < l,
        ;
    }
}

/// Floor square root by bisection.
pub fn isqrt(x: u64) -> (r: u64)
    ensures
        r as int == sqrt_floor(x as int),
        r * r <= x,
{
    let mut lo: u64 = 0;
    let mut hi: u64 = 4294967296;
    proof {
        assert(4294967296int * 4294967296int > x as int) by (nonlinear_arith)
            requires
                (x as int) < 0x1_0000_0000_0000_0000int,
        ;
    }
    while lo + 1 < hi
        invariant
            lo < hi,
            hi <= 4294967296,
            lo as int * lo as int <= x as int,
            (x as int) < hi as int * hi as int,
        decreases hi - lo,
    {
        let mid: u64 = lo + (hi - lo) / 2;
        proof {
            assert(mid < hi && lo < mid);
            assert((mid as int) * (mid as int) < 0x1_0000_0000_0000_0000int) by (nonlinear_arith)
                requires
                    mid <= 4294967295,
            ;
        }
        if mid * mid <= x {
            lo = mid;
        } else {
            hi = mid;
        }
    }
    proof {
        assert(hi == lo + 1);
        lemma_sqrt_unique(x as int, lo as int);
    }
    lo
}

/// One encoded normal-map channel: the component `c` of a vector of
/// length `l`, mapped from `[-l, l]` to `[0, 255]` and rounded to the
/// nearest byte.
pub open spec fn encode_channel(c: int, l: int) -> int {
    (255 * (c + l) + l) / (2 * l)
}

/// The encoded channel of a component bounded by the length lies in the
/// byte range, with the two extremes mapping to 0 and 255 and a vanishing
/// component mapping to the midpoint 128.
pub proof fn lemma_encode_range(c: int, l: int)
    requires
        1 <= l,
        -l <= c <= l,
    ensures
        0 <= encode_channel(c, l) <= 255,
        c == 0 ==> encode_channel(c, l) == 128,
        c == l ==> encode_channel(c, l) == 255,
        c == -l ==> encode_channel(c, l) == 0,
{
    let num = 255 * (c + l) + l;
    assert(0 <= num <= 511 * l);
    assert(0 <= num / (2 * l) <= 255) by (nonlinear_arith)
        requires
            1 <= l,
            0 <= num <= 511 * l,
    ;
    if c == 0 {
        lemma_fundamental_div_mod_converse(256 * l, 2 * l, 128, 0);
    }
    if c == l {
        lemma_fundamental_div_mod_converse(511 * l, 2 * l, 255, l);
    }
    if c == -l {
        lemma_fundamental_div_mod_converse(l, 2 * l, 0, l);
    }
}

/// Decoding inverts the encoding up to quantization: the component `c`
/// scaled by 255 differs from the decoded channel `2 v - 255` scaled by
/// the length `l` by less than one quantization step. Reconstructing the
/// vector from its three channel bytes therefore recovers each component
/// of the unit vector to within `1/255` of the length, which keeps the
/// decoded vector's length within quantization tolerance of one.
pub proof fn lemma_encode_inverts(c: int, l: int)
    requires
        1 <= l,
        -l <= c <= l,
    ensures
        -l <= 255 * c - (2 * encode_channel(c, l) - 255) * l < l,
{
    let q = encode_channel(c, l);
    let num = 255 * (c + l) + l;
    let d = 2 * l;
    vstd::arithmetic::div_mod::lemma_fundamental_div_mod(num, d);
    let r = num % d;
    vstd::arithmetic::div_mod::lemma_mod_pos_bound(num, d);
    assert(num == d * q + r);
    assert(255 * c == (2 * q - 255) * l + r - l) by (nonlinear_arith)
        requires
            255 * (c + l) + l == 2 * l * q + r,
    ;
}

/// The index of the clamped forward-difference neighbor: the next pixel,
/// held at the last interior pixel near the edge.
pub open spec fn clamped_next(x: int, n: int) -> int {
    if x + 1 <= n - 2 {
        x + 1
    } else {
        n - 2
    }
}

/// The constant z component of every gradient vector: the relief strength
/// on the same fixed-point scale as the gradients.
pub open spec fn relief_z(z_thousandths: int) -> int {
    65535 * z_thousandths
}

/// One channel (0 = x, 1 = y, 2 = z) of the normal encoded from a height
/// sample `h` and its clamped right and down neighbors `hx` and `hy`.
/// The gradient components `h - hx` and `h - hy` (in 65535ths) and the
/// relief (in 1000ths) are brought to the common scale of
/// 65535000ths; the vector is normalized by its floor length.
pub open spec fn pixel_chan(h: int, hx: int, hy: int, z_thousandths: int, ch: int) -> int {
    let a = 1000 * (h - hx);
    let b = 1000 * (h - hy);
    let c = relief_z(z_thousandths);
    let l = sqrt_floor(a * a + b * b + c * c);
    if ch == 0 {
        encode_channel(a, l)
    } else if ch == 1 {
        encode_channel(b, l)
    } else {
        encode_channel(c, l)
    }
}

/// One channel of the normal map at pixel (x, y) of a height field of
/// side `n`.
pub open spec fn normal_chan(h: Seq<u16>, n: int, z_thousandths: int, x: int, y: int, ch: int)
    -> int {
    pixel_chan(
        h[y * n + x] as int,
        h[y * n + clamped_next(x, n)] as int,
        h[clamped_next(y, n) * n + x] as int,
        z_thousandths,
        ch,
    )
}

/// The full normal map of a height field of side `n` as an RGB byte
/// buffer.
pub open spec fn normal_map_spec(h: Seq<u16>, n: int, z_thousandths: int) -> Seq<u8> {
    Seq::new((3 * n * n) as nat, |k: int|
        normal_chan(h, n, z_thousandths, (k / 3) % n, (k / 3) / n, k % 3) as u8,
    )
}

/// A square of a value bounded by `b` in magnitude is at most `b * b`.
proof fn lemma_square_le(v: int, b: int)
    requires
        -b <= v <= b,
        0 <= b,
    ensures
        0 <= v * v <= b * b,
{
    assert(0 <= v * v <= b * b) by (nonlinear_arith)
        requires
            -b <= v <= b,
            0 <= b,
    ;
}

/// A component of a vector is bounded in magnitude by the floor of the
/// vector's length.
proof fn lemma_component_bounded(v: int, s: int, l: int)
    requires
        v * v <= s,
        0 <= l,
        l * l <= s,
        s < (l + 1) * (l + 1),
    ensures
        -l <= v <= l,
{
    if v > l {
        assert((l + 1) * (l + 1) <= v * v) by (nonlinear_arith)
            requires
                0 <= l,
                l < v,
        ;
    }
    if v < -l {
        assert((l + 1) * (l + 1) <= v * v) by (nonlinear_arith)
            requires
                0 <= l,
                v < -l,
        ;
    }
}

/// Encodes the normal of one pixel from its height sample, its two
/// clamped neighbors and the relief strength, exactly per `pixel_chan`.
fn encode_normal_pixel(h: u16, hx: u16, hy: u16, relief_thousandths: u32) -> (rgb: (u8, u8, u8))
    requires
        1 <= relief_thousandths <= 10000,
    ensures
        rgb.0 == pixel_chan(h as int, hx as int, hy as int, relief_thousandths as int, 0),
        rgb.1 == pixel_chan(h as int, hx as int, hy as int, relief_thousandths as int, 1),
        rgb.2 == pixel_chan(h as int, hx as int, hy as int, relief_thousandths as int, 2),
{
    let a: i64 = 1000 * (h as i64 - hx as i64);
    let b: i64 = 1000 * (h as i64 - hy as i64);
    let z: i64 = 65535 * relief_thousandths as i64;
    proof {
        lemma_square_le(a as int, 65535000);
        lemma_square_le(b as int, 65535000);
        lemma_square_le(z as int, 655350000);
    }
    let s: i64 = a * a + b * b + z * z;
    let l64: u64 = isqrt(s as u64);
    proof {
        assert(0 <= s);
        assert((s as u64) as int == s as int);
        lemma_sqrt_floor(s as int);
        assert(65535 <= z);
        assert(1 <= z * z) by (nonlinear_arith)
            requires
                65535 <= z,
        ;
        assert(1 <= s);
        if l64 == 0 {
            assert((l64 as int + 1) * (l64 as int + 1) == 1) by (nonlinear_arith)
                requires
                    l64 == 0,
            ;
            assert(s < 1);
        }
        assert(1 <= l64);
        lemma_component_bounded(a as int, s as int, l64 as int);
        lemma_component_bounded(b as int, s as int, l64 as int);
        lemma_component_bounded(z as int, s as int, l64 as int);
        lemma_encode_range(a as int, l64 as int);
        lemma_encode_range(b as int, l64 as int);
        lemma_encode_range(z as int, l64 as int);
        assert(l64 <= 1000000000) by {
            assert(s <= 655350000int * 655350000int + 2 * (65535000int * 65535000int));
            if l64 > 1000000000 {
                assert(l64 as int * l64 as int > 655350000int * 655350000int + 2 * (65535000int
                    * 65535000int)) by (nonlinear_arith)
                    requires
                        l64 > 1000000000,
                ;
            }
        }
    }
    let l: i64 = l64 as i64;
    let cr: i64 = (255 * (a + l) + l) / (2 * l);
    let cg: i64 = (255 * (b + l) + l) / (2 * l);
    let cb: i64 = (255 * (z + l) + l) / (2 * l);
    (cr as u8, cg as u8, cb as u8)
}

/// Computes the tangent-space normal map of a height field by forward
/// differences, encoding each unit-vector component into a byte channel.
pub fn generate_normal_map(hf: &Gray16Image, relief_thousandths: u32) -> (nm: Rgb8Image)
    requires
        hf.wf(),
        hf.width == hf.height,
        2 <= hf.width <= 8192,
        1 <= relief_thousandths <= 10000,
    ensures
        nm.wf(),
        nm.width == hf.width,
        nm.height == hf.height,
        nm.data@ == normal_map_spec(hf.data@, hf.width as int, relief_thousandths as int),
{
    let n: usize = hf.width as usize;
    proof {
        assert(1 <= n as int * n as int <= 0x400_0000 && 3 * (n as int * n as int) == 3 * (n as int)
            * (n as int)) by (nonlinear_arith)
            requires
                2 <= n <= 8192,
        ;
    }
    let total: usize = n * n;
    let ghost gspec = normal_map_spec(hf.data@, hf.width as int, relief_thousandths as int);
    let mut data: Vec<u8> = Vec::new();
    let mut i: usize = 0;
    while i < total
        invariant
            hf.wf(),
            hf.width == hf.height,
            2 <= n <= 8192,
            n == hf.width,
            total == n * n,
            total == hf.data@.len(),
            1 <= relief_thousandths <= 10000,
            gspec == normal_map_spec(hf.data@, hf.width as int, relief_thousandths as int),
            gspec.len() == 3 * total,
            i <= total,
            data@.len() == 3 * i,
            forall|j: int| 0 <= j < 3 * i ==> data@[j] == gspec[j],
        decreases total - i,
    {
        proof {
            lemma_index_coords(i as int, n as int, n as int);
        }
        let x: usize = i % n;
        let y: usize = i / n;
        let xn: usize = if x + 1 <= n - 2 {
            x + 1
        } else {
            n - 2
        };
        let yn: usize = if y + 1 <= n - 2 {
            y + 1
        } else {
            n - 2
        };
        proof {
            lemma_flat_index(xn as int, y as int, n as int, n as int);
            lemma_flat_index(x as int, yn as int, n as int, n as int);
        }
        let (cr, cg, cb) = encode_normal_pixel(
            hf.data[i],
            hf.data[y * n + xn],
            hf.data[yn * n + x],
            relief_thousandths,
        );
        data.push(cr);
        data.push(cg);
        data.push(cb);
        proof {
            assert forall|j: int| 3 * i <= j < 3 * (i + 1) implies data@[j] == gspec[j] by {
                assert(j / 3 == i as int && (j == 3 * i ==> j % 3 == 0) && (j == 3 * i + 1 ==> j
                    % 3 == 1) && (j == 3 * i + 2 ==> j % 3 == 2)) by (nonlinear_arith)
                    requires
                        3 * i <= j < 3 * (i + 1),
                ;
            }
        }
        i = i + 1;
    }
    let nm = Rgb8Image { width: hf.width, height: hf.height, data };
    assert(nm.data@ =~= gspec);
    nm
}

/// A perfectly flat height field produces the no-relief normal map: every
/// pixel encodes the +Z direction, the x and y channels at the midpoint
/// 128 and the z channel at full 255.
pub proof fn lemma_flat_height_flat_normals(h: Seq<u16>, n: int, z_thousandths: int, v: u16)
    requires
        2 <= n,
        h.len() == n * n,
        1 <= z_thousandths <= 10000,
        forall|i: int| 0 <= i < h.len() ==> h[i] == v,
    ensures
        forall|k: int|
            0 <= k < 3 * n * n ==> normal_map_spec(h, n, z_thousandths)[k] == (if k % 3 == 2 {
                255u8
            } else {
                128u8
            }),
{
    let c = relief_z(z_thousandths);
    assert(65535 <= c <= 655350000);
    assert forall|k: int| 0 <= k < 3 * n * n implies normal_map_spec(h, n, z_thousandths)[k] == (
    if k % 3 == 2 {
        255u8
    } else {
        128u8
    }) by {
        assert(0 <= k / 3 < n * n && 0 <= k % 3 < 3) by (nonlinear_arith)
            requires
                0 <= k < 3 * n * n,
        ;
        let p = k / 3;
        lemma_index_coords(p, n, n);
        let x = p % n;
        let y = p / n;
        assert(0 <= clamped_next(x, n) < n && 0 <= clamped_next(y, n) < n);
        lemma_flat_index(x, y, n, n);
        lemma_flat_index(clamped_next(x, n), y, n, n);
        lemma_flat_index(x, clamped_next(y, n), n, n);
        assert(h[y * n + x] == v && h[y * n + clamped_next(x, n)] == v && h[clamped_next(y, n) * n
            + x] == v);
        assert(c * c <= c * c < (c + 1) * (c + 1)) by (nonlinear_arith)
            requires
                0 <= c,
        ;
        lemma_sqrt_unique(c * c, c);
        lemma_encode_range(0, c);
        lemma_encode_range(c, c);
        let a = 1000 * ((v as int) - (v as int));
        assert(a == 0);
        assert(a * a == 0) by (nonlinear_arith)
            requires
                a == 0,
        ;
        assert(a * a + a * a + c * c == c * c);
        assert(normal_chan(h, n, z_thousandths, x, y, k % 3) == (if k % 3 == 2 {
            255int
        } else {
            128int
        }));
    }
}

} // verus!
