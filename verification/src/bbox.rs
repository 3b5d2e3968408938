use vstd::prelude::*;
use crate::buffers::{lemma_index_coords, Gray16Image, CHANNEL_MAX};
use crate::errors::PipelineError;

verus! {

/// Tight rectangle, inclusive on all four edges, enclosing all pixels at
/// full foreground confidence.
#[derive(Clone, Copy, Debug, PartialEq, Eq, Structural)]
pub struct BoundingBox {
    pub left: u32,
    pub right: u32,
    pub top: u32,
    pub bottom: u32,
}

/// Whether the pixel at flat index `i` of a snapped mask is confident
/// foreground.
pub open spec fn fg(m: Seq<u16>, i: int) -> bool {
    0 <= i < m.len() && m[i] == CHANNEL_MAX
}

/// Every confident pixel of the mask (width `w`) lies inside the box.
pub open spec fn bbox_covers(m: Seq<u16>, w: int, bb: BoundingBox) -> bool {
    forall|i: int|
        0 <= i < m.len() && #[trigger] m[i] == CHANNEL_MAX ==> bb.left <= i % w <= bb.right
            && bb.top <= i / w <= bb.bottom
}

/// Each edge of the box touches some confident pixel.
pub open spec fn bbox_attained(m: Seq<u16>, w: int, bb: BoundingBox) -> bool {
    &&& exists|i: int| fg(m, i) && #[trigger] (i % w) == bb.left
    &&& exists|i: int| fg(m, i) && #[trigger] (i % w) == bb.right
    &&& exists|i: int| fg(m, i) && #[trigger] (i / w) == bb.top
    &&& exists|i: int| fg(m, i) && #[trigger] (i / w) == bb.bottom
}

/// `bb` is the tight bounding box of the confident foreground of a mask
/// of width `w` and height `h`.
pub open spec fn is_tight_bbox(m: Seq<u16>, w: int, h: int, bb: BoundingBox) -> bool {
    &&& bb.left <= bb.right < w
    &&& bb.top <= bb.bottom < h
    &&& bbox_covers(m, w, bb)
    &&& bbox_attained(m, w, bb)
}

/// A mask has at most one tight bounding box.
pub proof fn lemma_bbox_unique(m: Seq<u16>, w: int, h: int, b1: BoundingBox, b2: BoundingBox)
    requires
        is_tight_bbox(m, w, h, b1),
        is_tight_bbox(m, w, h, b2),
    ensures
        b1 == b2,
{
    let il1 = choose|i: int| fg(m, i) && #[trigger] (i % w) == b1.left;
    let il2 = choose|i: int| fg(m, i) && #[trigger] (i % w) == b2.left;
    assert(b2.left <= il1 % w);
    assert(b1.left <= il2 % w);
    let ir1 = choose|i: int| fg(m, i) && #[trigger] (i % w) == b1.right;
    let ir2 = choose|i: int| fg(m, i) && #[trigger] (i % w) == b2.right;
    assert(ir1 % w <= b2.right);
    assert(ir2 % w <= b1.right);
    let it1 = choose|i: int| fg(m, i) && #[trigger] (i / w) == b1.top;
    let it2 = choose|i: int| fg(m, i) && #[trigger] (i / w) == b2.top;
    assert(b2.top <= it1 / w);
    assert(b1.top <= it2 / w);
    let ib1 = choose|i: int| fg(m, i) && #[trigger] (i / w) == b1.bottom;
    let ib2 = choose|i: int| fg(m, i) && #[trigger] (i / w) == b2.bottom;
    assert(ib1 / w <= b2.bottom);
    assert(ib2 / w <= b1.bottom);
}

/// Scans the snapped mask and returns the tight bounding box of its
/// confident foreground, or `NoForegroundDetected` when no pixel reached
/// full confidence.
pub fn extract_bbox(m: &Gray16Image) -> (r: Result<BoundingBox, PipelineError>)
    requires
        m.wf(),
    ensures
        r is Ok <==> exists|i: int| fg(m.data@, i),
        r is Ok ==> is_tight_bbox(m.data@, m.width as int, m.height as int, r->Ok_0),
        r is Err ==> r->Err_0 == PipelineError::NoForegroundDetected,
{
    let w: usize = m.width as usize;
    let h: usize = m.height as usize;
    let n: usize = m.data.len();
    let mut found: bool = false;
    let mut left: usize = 0;
    let mut right: usize = 0;
    let mut top: usize = 0;
    let mut bottom: usize = 0;
    let ghost mut wl: int = 0;
    let ghost mut wr: int = 0;
    let ghost mut wt: int = 0;
    let ghost mut wb: int = 0;
    let mut i: usize = 0;
    while i < n
        invariant
            m.wf(),
            w == m.width,
            h == m.height,
            n == m.data@.len(),
            n == w * h,
            i <= n,
            found <==> exists|j: int| 0 <= j < i && #[trigger] m.data@[j] == CHANNEL_MAX,
            found ==> left <= right < w && top <= bottom < h,
            found ==> forall|j: int|
                0 <= j < i && #[trigger] m.data@[j] == CHANNEL_MAX ==> left <= j % (w as int) <= right
                    && top <= j / (w as int) <= bottom,
            found ==> fg(m.data@, wl) && wl % (w as int) == left,
            found ==> fg(m.data@, wr) && wr % (w as int) == right,
            found ==> fg(m.data@, wt) && wt / (w as int) == top,
            found ==> fg(m.data@, wb) && wb / (w as int) == bottom,
        decreases n - i,
    {
        if m.data[i] == CHANNEL_MAX {
            proof {
                lemma_index_coords(i as int, w as int, h as int);
            }
            let x: usize = i % w;
            let y: usize = i / w;
            if !found {
                found = true;
                left = x;
                right = x;
                top = y;
                bottom = y;
                proof {
                    wl = i as int;
                    wr = i as int;
                    wt = i as int;
                    wb = i as int;
                }
            } else {
                if x < left {
                    left = x;
                    proof {
                        wl = i as int;
                    }
                }
                if x > right {
                    right = x;
                    proof {
                        wr = i as int;
                    }
                }
                if y < top {
                    top = y;
                    proof {
                        wt = i as int;
                    }
                }
                if y > bottom {
                    bottom = y;
                    proof {
                        wb = i as int;
                    }
                }
            }
        }
        i = i + 1;
    }
    if found {
        let bb = BoundingBox {
            left: left as u32,
            right: right as u32,
            top: top as u32,
            bottom: bottom as u32,
        };
        assert(fg(m.data@, wl) && wl % (w as int) == bb.left);
        assert(fg(m.data@, wr) && wr % (w as int) == bb.right);
        assert(fg(m.data@, wt) && wt / (w as int) == bb.top);
        assert(fg(m.data@, wb) && wb / (w as int) == bb.bottom);
        Ok(bb)
    } else {
        Err(PipelineError::NoForegroundDetected)
    }
}

} // verus!
