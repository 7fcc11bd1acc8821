//! Triangulation plans.
//!
//! The mesh of a full lithophane is assembled from two parallel vertex
//! lists of the same length: the backing vertices of the point cloud and
//! the raised vertices, each backing vertex displaced along its normal by
//! the depth of its pixel. Which vertices form which triangle, and in what
//! winding order, is pure index arithmetic; this module computes that plan
//! and proves it correct, so the caller only has to look the referenced
//! points up and hand each planned triple to the triangle builder.
//!
//! A full plan holds, in insertion order: two backing triangles per 2x2
//! block of the grid, two raised triangles per block with mirrored winding
//! (the front faces outward, the backing inward), and two wall triangles
//! per boundary edge along the top row, bottom row, left column and right
//! column, closing the solid. A preview plan triangulates a single surface
//! only.

use vstd::arithmetic::div_mod::{
    lemma_fundamental_div_mod, lemma_fundamental_div_mod_converse, lemma_mod_bound,
};
use vstd::prelude::*;

verus! {

/// A reference to one vertex of the point cloud: either the backing vertex
/// at a flat row-major slot, or the raised (depth-extruded) vertex at the
/// same slot.
#[derive(Clone, Copy, Debug, PartialEq, Eq, Hash, Structural)]
pub enum VertexRef {
    Backing { index: usize },
    Raised { index: usize },
}

/// Three vertex references forming one planned triangle, in winding order.
#[derive(Clone, Copy, Debug, PartialEq, Eq, Hash, Structural)]
pub struct TriangleRefs {
    pub a: VertexRef,
    pub b: VertexRef,
    pub c: VertexRef,
}

pub open spec fn back_ref(i: int) -> VertexRef {
    VertexRef::Backing { index: i as usize }
}

pub open spec fn raised_ref(i: int) -> VertexRef {
    VertexRef::Raised { index: i as usize }
}

/// Triangles of the backing surface alone: two per 2x2 block.
pub open spec fn backing_triangle_count(w: int, h: int) -> int {
    2 * (w - 1) * (h - 1)
}

/// Triangles of a full lithophane of a `w x h` point cloud: backing and
/// raised surfaces with two triangles per block each, plus two triangles
/// per boundary edge of the four side walls.
pub open spec fn lithophane_triangle_count(w: int, h: int) -> int {
    4 * (w - 1) * (h - 1) + 4 * (w - 1) + 4 * (h - 1)
}

/// Triangles of a preview of a `w x h` point cloud: the surface alone.
pub open spec fn preview_triangle_count(w: int, h: int) -> int {
    2 * (w - 1) * (h - 1)
}

/// First plan slot of the top-wall section; the raised section sits
/// between the backing section and this slot.
pub open spec fn top_wall_start(w: int, h: int) -> int {
    2 * backing_triangle_count(w, h)
}

pub open spec fn bottom_wall_start(w: int, h: int) -> int {
    top_wall_start(w, h) + 2 * (w - 1)
}

pub open spec fn left_wall_start(w: int, h: int) -> int {
    bottom_wall_start(w, h) + 2 * (w - 1)
}

pub open spec fn right_wall_start(w: int, h: int) -> int {
    left_wall_start(w, h) + 2 * (h - 1)
}

/// The two backing triangles of the block whose top-left corner is grid
/// slot `(x, y)`, `j` selecting the first or second of the pair. The
/// backing faces away from the raised surface.
pub open spec fn backing_triangle(w: int, y: int, x: int, j: int) -> TriangleRefs {
    if j == 0 {
        (TriangleRefs {
            a: back_ref(y * w + x),
            b: back_ref((y + 1) * w + x + 1),
            c: back_ref((y + 1) * w + x),
        })
    } else {
        (TriangleRefs {
            a: back_ref(y * w + x),
            b: back_ref(y * w + x + 1),
            c: back_ref((y + 1) * w + x + 1),
        })
    }
}

/// The two raised triangles of a block: the backing pair with the
/// winding mirrored, on the raised vertices.
pub open spec fn raised_triangle(w: int, y: int, x: int, j: int) -> TriangleRefs {
    if j == 0 {
        (TriangleRefs {
            a: raised_ref(y * w + x),
            b: raised_ref((y + 1) * w + x),
            c: raised_ref((y + 1) * w + x + 1),
        })
    } else {
        (TriangleRefs {
            a: raised_ref(y * w + x),
            b: raised_ref((y + 1) * w + x + 1),
            c: raised_ref(y * w + x + 1),
        })
    }
}

/// The two wall triangles over boundary edge `x` of the top image row.
pub open spec fn top_wall_triangle(x: int, j: int) -> TriangleRefs {
    if j == 0 {
        (TriangleRefs { a: back_ref(x), b: raised_ref(x), c: raised_ref(x + 1) })
    } else {
        (TriangleRefs { a: back_ref(x), b: raised_ref(x + 1), c: back_ref(x + 1) })
    }
}

/// The two wall triangles over boundary edge `x` of the bottom image row.
pub open spec fn bottom_wall_triangle(w: int, h: int, x: int, j: int) -> TriangleRefs {
    if j == 0 {
        (TriangleRefs {
            a: back_ref((h - 1) * w + x),
            b: raised_ref((h - 1) * w + x + 1),
            c: raised_ref((h - 1) * w + x),
        })
    } else {
        (TriangleRefs {
            a: back_ref((h - 1) * w + x),
            b: back_ref((h - 1) * w + x + 1),
            c: raised_ref((h - 1) * w + x + 1),
        })
    }
}

/// The two wall triangles over boundary edge `y` of the left image column.
pub open spec fn left_wall_triangle(w: int, y: int, j: int) -> TriangleRefs {
    if j == 0 {
        (TriangleRefs { a: back_ref(y * w), b: back_ref((y + 1) * w), c: raised_ref((y + 1) * w) })
    } else {
        (TriangleRefs { a: back_ref(y * w), b: raised_ref((y + 1) * w), c: raised_ref(y * w) })
    }
}

/// The two wall triangles over boundary edge `y` of the right image column.
pub open spec fn right_wall_triangle(w: int, y: int, j: int) -> TriangleRefs {
    if j == 0 {
        (TriangleRefs {
            a: back_ref((y + 1) * w - 1),
            b: raised_ref((y + 2) * w - 1),
            c: back_ref((y + 2) * w - 1),
        })
    } else {
        (TriangleRefs {
            a: back_ref((y + 1) * w - 1),
            b: raised_ref((y + 1) * w - 1),
            c: raised_ref((y + 2) * w - 1),
        })
    }
}

/// The planned triangle in slot `k` of the full lithophane plan for a
/// `w x h` point cloud.
pub open spec fn plan_entry(w: int, h: int, k: int) -> TriangleRefs {
    if k < backing_triangle_count(w, h) {
        backing_triangle(w, (k / 2) / (w - 1), (k / 2) % (w - 1), k % 2)
    } else if k < top_wall_start(w, h) {
        let k2 = k - backing_triangle_count(w, h);
        raised_triangle(w, (k2 / 2) / (w - 1), (k2 / 2) % (w - 1), k2 % 2)
    } else if k < bottom_wall_start(w, h) {
        let k2 = k - top_wall_start(w, h);
        top_wall_triangle(k2 / 2, k2 % 2)
    } else if k < left_wall_start(w, h) {
        let k2 = k - bottom_wall_start(w, h);
        bottom_wall_triangle(w, h, k2 / 2, k2 % 2)
    } else if k < right_wall_start(w, h) {
        let k2 = k - left_wall_start(w, h);
        left_wall_triangle(w, k2 / 2, k2 % 2)
    } else {
        let k2 = k - right_wall_start(w, h);
        right_wall_triangle(w, k2 / 2, k2 % 2)
    }
}

/// The planned triangle in slot `k` of a preview plan: plain flat slots
/// into the single vertex list of the previewed surface.
pub open spec fn preview_entry(w: int, h: int, k: int) -> (usize, usize, usize) {
    let y = (k / 2) / (w - 1);
    let x = (k / 2) % (w - 1);
    if k % 2 == 0 {
        (
            (y * w + x) as usize,
            ((y + 1) * w + x) as usize,
            ((y + 1) * w + x + 1) as usize,
        )
    } else {
        (
            (y * w + x) as usize,
            ((y + 1) * w + x + 1) as usize,
            (y * w + x + 1) as usize,
        )
    }
}

pub open spec fn vertex_ref_in_bounds(v: VertexRef, n: int) -> bool {
    match v {
        VertexRef::Backing { index } => index < n,
        VertexRef::Raised { index } => index < n,
    }
}

pub open spec fn triangle_refs_in_bounds(t: TriangleRefs, n: int) -> bool {
    &&& vertex_ref_in_bounds(t.a, n)
    &&& vertex_ref_in_bounds(t.b, n)
    &&& vertex_ref_in_bounds(t.c, n)
}

pub open spec fn preview_triple_in_bounds(t: (usize, usize, usize), n: int) -> bool {
    &&& t.0 < n
    &&& t.1 < n
    &&& t.2 < n
}

/// How the sections of a full plan stack up: every section start is
/// non-negative and ordered, and the right wall ends exactly at the total
/// triangle count.
pub proof fn lemma_section_layout(w: int, h: int)
    requires
        1 <= w,
        1 <= h,
    ensures
        0 <= backing_triangle_count(w, h),
        backing_triangle_count(w, h) <= top_wall_start(w, h),
        top_wall_start(w, h) <= bottom_wall_start(w, h),
        bottom_wall_start(w, h) <= left_wall_start(w, h),
        left_wall_start(w, h) <= right_wall_start(w, h),
        right_wall_start(w, h) + 2 * (h - 1) == lithophane_triangle_count(w, h),
{
    assert(0 <= 2 * (w - 1) * (h - 1) && 2 * (2 * (w - 1) * (h - 1)) == 4 * (w - 1) * (h - 1))
        by (nonlinear_arith)
        requires 1 <= w, 1 <= h;
}

/// Division facts for a section whose blocks hold two triangles each:
/// slot `2q + j` decomposes back into block `q` and member `j`, and block
/// `y * (w - 1) + x` of a row-major block grid decomposes back into `(y, x)`.
proof fn lemma_quad_slot(w: int, h: int, y: int, x: int)
    requires
        2 <= w,
        2 <= h,
        0 <= y <= h - 2,
        0 <= x <= w - 2,
    ensures
        0 <= y * (w - 1) + x,
        2 * (y * (w - 1) + x) + 1 < 2 * (w - 1) * (h - 1),
        (2 * (y * (w - 1) + x)) / 2 == y * (w - 1) + x,
        (2 * (y * (w - 1) + x)) % 2 == 0,
        (2 * (y * (w - 1) + x) + 1) / 2 == y * (w - 1) + x,
        (2 * (y * (w - 1) + x) + 1) % 2 == 1,
        (y * (w - 1) + x) / (w - 1) == y,
        (y * (w - 1) + x) % (w - 1) == x,
{
    let q = y * (w - 1) + x;
    assert(0 <= q && 2 * q + 1 < 2 * (w - 1) * (h - 1)) by (nonlinear_arith)
        requires 0 <= y <= h - 2, 0 <= x <= w - 2, 2 <= w, q == y * (w - 1) + x;
    assert(2 * q == q * 2 + 0 && 2 * q + 1 == q * 2 + 1) by (nonlinear_arith);
    lemma_fundamental_div_mod_converse(2 * q, 2, q, 0);
    lemma_fundamental_div_mod_converse(2 * q + 1, 2, q, 1);
    lemma_fundamental_div_mod_converse(q, w - 1, y, x);
}

/// Division facts for a wall section over `n` boundary edges.
proof fn lemma_pair_slot(t: int, n: int)
    requires
        0 <= t < n,
    ensures
        2 * t + 1 < 2 * n,
        (2 * t) / 2 == t,
        (2 * t) % 2 == 0,
        (2 * t + 1) / 2 == t,
        (2 * t + 1) % 2 == 1,
{
    assert(2 * t == t * 2 + 0 && 2 * t + 1 == t * 2 + 1) by (nonlinear_arith);
    lemma_fundamental_div_mod_converse(2 * t, 2, t, 0);
    lemma_fundamental_div_mod_converse(2 * t + 1, 2, t, 1);
}

/// Append the backing-surface triangles: for every 2x2 block, two
/// triangles over the raw (non-extruded) vertices.
fn append_backing_triangles(r: &mut Vec<TriangleRefs>, width: usize, height: usize)
    requires
        1 <= width,
        1 <= height,
        width * height <= usize::MAX,
        lithophane_triangle_count(width as int, height as int) <= usize::MAX,
        old(r)@.len() == 0,
    ensures
        final(r)@.len() == backing_triangle_count(width as int, height as int),
        forall|k: int|
            0 <= k < final(r)@.len() ==> final(r)@[k] == plan_entry(width as int, height as int, k),
{
    let ghost wi: int = width as int;
    let ghost hi: int = height as int;
    if width < 2 || height < 2 {
        proof {
            assert(2 * (wi - 1) * (hi - 1) == 0) by (nonlinear_arith)
                requires wi == 1 || hi == 1;
        }
        return ;
    }
    let mut y: usize = 0;
    while y < height - 1
        invariant
            wi == width as int,
            hi == height as int,
            2 <= width,
            2 <= height,
            width * height <= usize::MAX,
            lithophane_triangle_count(wi, hi) <= usize::MAX,
            y <= height - 1,
            r@.len() == 2 * (y * (width - 1)),
            forall|k: int| 0 <= k < r@.len() ==> r@[k] == plan_entry(wi, hi, k),
        decreases height - 1 - y,
    {
        let mut x: usize = 0;
        proof {
            assert(2 * ((y + 1) * (wi - 1)) == 2 * (y * (wi - 1)) + 2 * (wi - 1) && 0 <= 2 * (y
                * (wi - 1))) by (nonlinear_arith)
                requires 0 <= y, 1 <= wi;
            assert(2 * ((y + 1) * (wi - 1)) <= 2 * (wi - 1) * (hi - 1)) by (nonlinear_arith)
                requires y + 1 <= hi - 1, 1 <= wi;
            lemma_section_layout(wi, hi);
        }
        while x < width - 1
            invariant
                wi == width as int,
                hi == height as int,
                2 <= width,
                2 <= height,
                width * height <= usize::MAX,
                lithophane_triangle_count(wi, hi) <= usize::MAX,
                y < height - 1,
                x <= width - 1,
                2 * (y * (wi - 1)) + 2 * (wi - 1) <= lithophane_triangle_count(wi, hi),
                0 <= 2 * (y * (wi - 1)),
                r@.len() == 2 * (y * (wi - 1) + x),
                forall|k: int| 0 <= k < r@.len() ==> r@[k] == plan_entry(wi, hi, k),
            decreases width - 1 - x,
        {
            proof {
                lemma_quad_slot(wi, hi, y as int, x as int);
                assert((y + 1) * wi + x + 1 < wi * hi && 0 <= y * wi + x && (y + 1) * wi == y * wi
                    + wi && 2 * (y * (wi - 1) + x) + 2 == 2 * (y * (wi - 1) + (x + 1)))
                    by (nonlinear_arith)
                    requires 0 <= y, y + 2 <= hi, 0 <= x, x + 2 <= wi, 1 <= wi;
            }
            let base_i = y * width + x;
            let below_i = (y + 1) * width + x;
            r.push(TriangleRefs {
                a: VertexRef::Backing { index: base_i },
                b: VertexRef::Backing { index: below_i + 1 },
                c: VertexRef::Backing { index: below_i },
            });
            r.push(TriangleRefs {
                a: VertexRef::Backing { index: base_i },
                b: VertexRef::Backing { index: base_i + 1 },
                c: VertexRef::Backing { index: below_i + 1 },
            });
            proof {
                let kk = 2 * (y as int * (wi - 1) + x as int);
                assert(r@[kk] == plan_entry(wi, hi, kk));
                assert(r@[kk + 1] == plan_entry(wi, hi, kk + 1));
            }
            x = x + 1;
        }
        proof {
            assert(2 * (y * (wi - 1) + (wi - 1)) == 2 * ((y + 1) * (wi - 1))) by (nonlinear_arith);
        }
        y = y + 1;
    }
    proof {
        assert(2 * ((hi - 1) * (wi - 1)) == 2 * (wi - 1) * (hi - 1)) by (nonlinear_arith);
    }
}

/// Append the raised-surface triangles: for every 2x2 block, two
/// triangles over the depth-extruded vertices, winding mirrored against
/// the backing pair so the front faces outward.
fn append_raised_triangles(r: &mut Vec<TriangleRefs>, width: usize, height: usize)
    requires
        1 <= width,
        1 <= height,
        width * height <= usize::MAX,
        lithophane_triangle_count(width as int, height as int) <= usize::MAX,
        old(r)@.len() == backing_triangle_count(width as int, height as int),
        forall|k: int|
            0 <= k < old(r)@.len() ==> old(r)@[k] == plan_entry(width as int, height as int, k),
    ensures
        final(r)@.len() == top_wall_start(width as int, height as int),
        forall|k: int|
            0 <= k < final(r)@.len() ==> final(r)@[k] == plan_entry(width as int, height as int, k),
{
    let ghost wi: int = width as int;
    let ghost hi: int = height as int;
    let ghost nb: int = backing_triangle_count(wi, hi);
    if width < 2 || height < 2 {
        proof {
            assert(2 * (wi - 1) * (hi - 1) == 0) by (nonlinear_arith)
                requires wi == 1 || hi == 1;
        }
        return ;
    }
    let mut y: usize = 0;
    while y < height - 1
        invariant
            wi == width as int,
            hi == height as int,
            nb == backing_triangle_count(wi, hi),
            2 <= width,
            2 <= height,
            width * height <= usize::MAX,
            lithophane_triangle_count(wi, hi) <= usize::MAX,
            y <= height - 1,
            r@.len() == nb + 2 * (y * (width - 1)),
            forall|k: int| 0 <= k < r@.len() ==> r@[k] == plan_entry(wi, hi, k),
        decreases height - 1 - y,
    {
        let mut x: usize = 0;
        proof {
            assert(2 * ((y + 1) * (wi - 1)) == 2 * (y * (wi - 1)) + 2 * (wi - 1) && 0 <= 2 * (y
                * (wi - 1))) by (nonlinear_arith)
                requires 0 <= y, 1 <= wi;
            assert(2 * ((y + 1) * (wi - 1)) <= 2 * (wi - 1) * (hi - 1)) by (nonlinear_arith)
                requires y + 1 <= hi - 1, 1 <= wi;
            lemma_section_layout(wi, hi);
        }
        while x < width - 1
            invariant
                wi == width as int,
                hi == height as int,
                nb == backing_triangle_count(wi, hi),
                2 <= width,
                2 <= height,
                width * height <= usize::MAX,
                lithophane_triangle_count(wi, hi) <= usize::MAX,
                y < height - 1,
                x <= width - 1,
                nb + 2 * (y * (wi - 1)) + 2 * (wi - 1) <= lithophane_triangle_count(wi, hi),
                0 <= 2 * (y * (wi - 1)),
                0 <= nb,
                r@.len() == nb + 2 * (y * (wi - 1) + x),
                forall|k: int| 0 <= k < r@.len() ==> r@[k] == plan_entry(wi, hi, k),
            decreases width - 1 - x,
        {
            proof {
                lemma_quad_slot(wi, hi, y as int, x as int);
                assert((y + 1) * wi + x + 1 < wi * hi && 0 <= y * wi + x && (y + 1) * wi == y * wi
                    + wi && 2 * (y * (wi - 1) + x) + 2 == 2 * (y * (wi - 1) + (x + 1)))
                    by (nonlinear_arith)
                    requires 0 <= y, y + 2 <= hi, 0 <= x, x + 2 <= wi, 1 <= wi;
            }
            let base_i = y * width + x;
            let below_i = (y + 1) * width + x;
            r.push(TriangleRefs {
                a: VertexRef::Raised { index: base_i },
                b: VertexRef::Raised { index: below_i },
                c: VertexRef::Raised { index: below_i + 1 },
            });
            r.push(TriangleRefs {
                a: VertexRef::Raised { index: base_i },
                b: VertexRef::Raised { index: below_i + 1 },
                c: VertexRef::Raised { index: base_i + 1 },
            });
            proof {
                let kk = nb + 2 * (y as int * (wi - 1) + x as int);
                assert(kk - nb == 2 * (y as int * (wi - 1) + x as int));
                assert(r@[kk] == plan_entry(wi, hi, kk));
                assert(r@[kk + 1] == plan_entry(wi, hi, kk + 1));
            }
            x = x + 1;
        }
        proof {
            assert(2 * (y * (wi - 1) + (wi - 1)) == 2 * ((y + 1) * (wi - 1))) by (nonlinear_arith);
        }
        y = y + 1;
    }
    proof {
        assert(2 * ((hi - 1) * (wi - 1)) == 2 * (wi - 1) * (hi - 1)) by (nonlinear_arith);
    }
}

/// Append the wall triangles along the top image row, connecting backing
/// and raised vertices of adjacent boundary columns.
fn append_top_wall(r: &mut Vec<TriangleRefs>, width: usize, height: usize)
    requires
        1 <= width,
        1 <= height,
        width * height <= usize::MAX,
        lithophane_triangle_count(width as int, height as int) <= usize::MAX,
        old(r)@.len() == top_wall_start(width as int, height as int),
        forall|k: int|
            0 <= k < old(r)@.len() ==> old(r)@[k] == plan_entry(width as int, height as int, k),
    ensures
        final(r)@.len() == bottom_wall_start(width as int, height as int),
        forall|k: int|
            0 <= k < final(r)@.len() ==> final(r)@[k] == plan_entry(width as int, height as int, k),
{
    let ghost wi: int = width as int;
    let ghost hi: int = height as int;
    let ghost start: int = top_wall_start(wi, hi);
    let mut x: usize = 0;
    while x < width - 1
        invariant
            wi == width as int,
            hi == height as int,
            start == top_wall_start(wi, hi),
            1 <= width,
            1 <= height,
            width * height <= usize::MAX,
            lithophane_triangle_count(wi, hi) <= usize::MAX,
            x <= width - 1,
            r@.len() == start + 2 * x,
            forall|k: int| 0 <= k < r@.len() ==> r@[k] == plan_entry(wi, hi, k),
        decreases width - 1 - x,
    {
        proof {
            lemma_section_layout(wi, hi);
            lemma_pair_slot(x as int, wi - 1);
            assert(x + 1 < wi * hi) by (nonlinear_arith)
                requires 0 <= x, x + 2 <= wi, 1 <= hi;
        }
        r.push(TriangleRefs {
            a: VertexRef::Backing { index: x },
            b: VertexRef::Raised { index: x },
            c: VertexRef::Raised { index: x + 1 },
        });
        r.push(TriangleRefs {
            a: VertexRef::Backing { index: x },
            b: VertexRef::Raised { index: x + 1 },
            c: VertexRef::Backing { index: x + 1 },
        });
        proof {
            let kk = start + 2 * (x as int);
            assert(r@[kk] == plan_entry(wi, hi, kk));
            assert(r@[kk + 1] == plan_entry(wi, hi, kk + 1));
        }
        x = x + 1;
    }
}

/// Append the wall triangles along the bottom image row.
fn append_bottom_wall(r: &mut Vec<TriangleRefs>, width: usize, height: usize)
    requires
        1 <= width,
        1 <= height,
        width * height <= usize::MAX,
        lithophane_triangle_count(width as int, height as int) <= usize::MAX,
        old(r)@.len() == bottom_wall_start(width as int, height as int),
        forall|k: int|
            0 <= k < old(r)@.len() ==> old(r)@[k] == plan_entry(width as int, height as int, k),
    ensures
        final(r)@.len() == left_wall_start(width as int, height as int),
        forall|k: int|
            0 <= k < final(r)@.len() ==> final(r)@[k] == plan_entry(width as int, height as int, k),
{
    let ghost wi: int = width as int;
    let ghost hi: int = height as int;
    let ghost start: int = bottom_wall_start(wi, hi);
    let mut x: usize = 0;
    while x < width - 1
        invariant
            wi == width as int,
            hi == height as int,
            start == bottom_wall_start(wi, hi),
            1 <= width,
            1 <= height,
            width * height <= usize::MAX,
            lithophane_triangle_count(wi, hi) <= usize::MAX,
            x <= width - 1,
            r@.len() == start + 2 * x,
            forall|k: int| 0 <= k < r@.len() ==> r@[k] == plan_entry(wi, hi, k),
        decreases width - 1 - x,
    {
        proof {
            lemma_section_layout(wi, hi);
            lemma_pair_slot(x as int, wi - 1);
            assert((hi - 1) * wi + x + 1 < wi * hi && 0 <= (hi - 1) * wi) by (nonlinear_arith)
                requires 0 <= x, x + 2 <= wi, 1 <= hi;
        }
        let i0 = (height - 1) * width + x;
        r.push(TriangleRefs {
            a: VertexRef::Backing { index: i0 },
            b: VertexRef::Raised { index: i0 + 1 },
            c: VertexRef::Raised { index: i0 },
        });
        r.push(TriangleRefs {
            a: VertexRef::Backing { index: i0 },
            b: VertexRef::Backing { index: i0 + 1 },
            c: VertexRef::Raised { index: i0 + 1 },
        });
        proof {
            let kk = start + 2 * (x as int);
            assert(r@[kk] == plan_entry(wi, hi, kk));
            assert(r@[kk + 1] == plan_entry(wi, hi, kk + 1));
        }
        x = x + 1;
    }
}

/// Append the wall triangles along the left image column.
fn append_left_wall(r: &mut Vec<TriangleRefs>, width: usize, height: usize)
    requires
        1 <= width,
        1 <= height,
        width * height <= usize::MAX,
        lithophane_triangle_count(width as int, height as int) <= usize::MAX,
        old(r)@.len() == left_wall_start(width as int, height as int),
        forall|k: int|
            0 <= k < old(r)@.len() ==> old(r)@[k] == plan_entry(width as int, height as int, k),
    ensures
        final(r)@.len() == right_wall_start(width as int, height as int),
        forall|k: int|
            0 <= k < final(r)@.len() ==> final(r)@[k] == plan_entry(width as int, height as int, k),
{
    let ghost wi: int = width as int;
    let ghost hi: int = height as int;
    let ghost start: int = left_wall_start(wi, hi);
    let mut y: usize = 0;
    while y < height - 1
        invariant
            wi == width as int,
            hi == height as int,
            start == left_wall_start(wi, hi),
            1 <= width,
            1 <= height,
            width * height <= usize::MAX,
            lithophane_triangle_count(wi, hi) <= usize::MAX,
            y <= height - 1,
            r@.len() == start + 2 * y,
            forall|k: int| 0 <= k < r@.len() ==> r@[k] == plan_entry(wi, hi, k),
        decreases height - 1 - y,
    {
        proof {
            lemma_section_layout(wi, hi);
            lemma_pair_slot(y as int, hi - 1);
            assert((y + 1) * wi < wi * hi && 0 <= y * wi && (y + 1) * wi == y * wi + wi)
                by (nonlinear_arith)
                requires 0 <= y, y + 2 <= hi, 1 <= wi;
        }
        let cur = y * width;
        let low = (y + 1) * width;
        r.push(TriangleRefs {
            a: VertexRef::Backing { index: cur },
            b: VertexRef::Backing { index: low },
            c: VertexRef::Raised { index: low },
        });
        r.push(TriangleRefs {
            a: VertexRef::Backing { index: cur },
            b: VertexRef::Raised { index: low },
            c: VertexRef::Raised { index: cur },
        });
        proof {
            let kk = start + 2 * (y as int);
            assert(r@[kk] == plan_entry(wi, hi, kk));
            assert(r@[kk + 1] == plan_entry(wi, hi, kk + 1));
        }
        y = y + 1;
    }
}

/// Append the wall triangles along the right image column, completing the
/// plan.
fn append_right_wall(r: &mut Vec<TriangleRefs>, width: usize, height: usize)
    requires
        1 <= width,
        1 <= height,
        width * height <= usize::MAX,
        lithophane_triangle_count(width as int, height as int) <= usize::MAX,
        old(r)@.len() == right_wall_start(width as int, height as int),
        forall|k: int|
            0 <= k < old(r)@.len() ==> old(r)@[k] == plan_entry(width as int, height as int, k),
    ensures
        final(r)@.len() == lithophane_triangle_count(width as int, height as int),
        forall|k: int|
            0 <= k < final(r)@.len() ==> final(r)@[k] == plan_entry(width as int, height as int, k),
{
    let ghost wi: int = width as int;
    let ghost hi: int = height as int;
    let ghost start: int = right_wall_start(wi, hi);
    let mut y: usize = 0;
    while y < height - 1
        invariant
            wi == width as int,
            hi == height as int,
            start == right_wall_start(wi, hi),
            1 <= width,
            1 <= height,
            width * height <= usize::MAX,
            lithophane_triangle_count(wi, hi) <= usize::MAX,
            y <= height - 1,
            r@.len() == start + 2 * y,
            forall|k: int| 0 <= k < r@.len() ==> r@[k] == plan_entry(wi, hi, k),
        decreases height - 1 - y,
    {
        proof {
            lemma_section_layout(wi, hi);
            lemma_pair_slot(y as int, hi - 1);
            assert((y + 2) * wi - 1 < wi * hi && 1 <= (y + 1) * wi && (y + 2) * wi == (y + 1) * wi
                + wi) by (nonlinear_arith)
                requires 0 <= y, y + 2 <= hi, 1 <= wi;
        }
        let cur = (y + 1) * width - 1;
        let low = (y + 2) * width - 1;
        r.push(TriangleRefs {
            a: VertexRef::Backing { index: cur },
            b: VertexRef::Raised { index: low },
            c: VertexRef::Backing { index: low },
        });
        r.push(TriangleRefs {
            a: VertexRef::Backing { index: cur },
            b: VertexRef::Raised { index: cur },
            c: VertexRef::Raised { index: low },
        });
        proof {
            let kk = start + 2 * (y as int);
            assert(r@[kk] == plan_entry(wi, hi, kk));
            assert(r@[kk + 1] == plan_entry(wi, hi, kk + 1));
        }
        y = y + 1;
    }
    proof {
        lemma_section_layout(wi, hi);
    }
}

/// Recover block row, column and pair member from a slot of a
/// two-triangles-per-block section.
proof fn lemma_quad_recovery(w: int, h: int, k: int)
    requires
        1 <= w,
        1 <= h,
        0 <= k < 2 * (w - 1) * (h - 1),
    ensures
        0 <= (k / 2) / (w - 1) <= h - 2,
        0 <= (k / 2) % (w - 1) <= w - 2,
        0 <= k % 2 < 2,
{
    assert(2 <= w && 2 <= h) by (nonlinear_arith)
        requires 1 <= w, 1 <= h, 0 < 2 * (w - 1) * (h - 1);
    lemma_fundamental_div_mod(k, 2);
    lemma_mod_bound(k, 2);
    let q = k / 2;
    assert(q < (w - 1) * (h - 1)) by (nonlinear_arith)
        requires k == 2 * q + k % 2, 0 <= k % 2, k < 2 * (w - 1) * (h - 1);
    lemma_fundamental_div_mod(q, w - 1);
    lemma_mod_bound(q, w - 1);
    assert(0 <= q / (w - 1) <= h - 2) by (nonlinear_arith)
        requires
            q == (w - 1) * (q / (w - 1)) + q % (w - 1),
            0 <= q % (w - 1) < w - 1,
            0 <= q < (w - 1) * (h - 1),
            1 <= w - 1;
}

/// Recover edge number and pair member from a slot of a wall section over
/// `n` boundary edges.
proof fn lemma_pair_recovery(k2: int, n: int)
    requires
        0 <= k2 < 2 * n,
    ensures
        0 <= k2 / 2 < n,
        0 <= k2 % 2 < 2,
{
    lemma_fundamental_div_mod(k2, 2);
    lemma_mod_bound(k2, 2);
}

/// Every vertex reference of every planned triangle points into a point
/// cloud of `w * h` vertices.
pub proof fn lemma_plan_entry_in_bounds(w: int, h: int, k: int)
    requires
        1 <= w,
        1 <= h,
        w * h <= usize::MAX,
        0 <= k < lithophane_triangle_count(w, h),
    ensures
        triangle_refs_in_bounds(plan_entry(w, h, k), w * h),
{
    lemma_section_layout(w, h);
    if k < backing_triangle_count(w, h) {
        lemma_quad_recovery(w, h, k);
        let y = (k / 2) / (w - 1);
        let x = (k / 2) % (w - 1);
        assert(0 <= y * w + x && (y + 1) * w + x + 1 < w * h && (y + 1) * w == y * w + w)
            by (nonlinear_arith)
            requires 0 <= y <= h - 2, 0 <= x <= w - 2, 2 <= w;
    } else if k < top_wall_start(w, h) {
        let k2 = k - backing_triangle_count(w, h);
        lemma_quad_recovery(w, h, k2);
        let y = (k2 / 2) / (w - 1);
        let x = (k2 / 2) % (w - 1);
        assert(0 <= y * w + x && (y + 1) * w + x + 1 < w * h && (y + 1) * w == y * w + w)
            by (nonlinear_arith)
            requires 0 <= y <= h - 2, 0 <= x <= w - 2, 2 <= w;
    } else if k < bottom_wall_start(w, h) {
        let k2 = k - top_wall_start(w, h);
        lemma_pair_recovery(k2, w - 1);
        assert(k2 / 2 + 1 < w * h) by (nonlinear_arith)
            requires 0 <= k2 / 2, k2 / 2 + 2 <= w, 1 <= h;
    } else if k < left_wall_start(w, h) {
        let k2 = k - bottom_wall_start(w, h);
        lemma_pair_recovery(k2, w - 1);
        assert((h - 1) * w + k2 / 2 + 1 < w * h && 0 <= (h - 1) * w) by (nonlinear_arith)
            requires 0 <= k2 / 2, k2 / 2 + 2 <= w, 1 <= h;
    } else if k < right_wall_start(w, h) {
        let k2 = k - left_wall_start(w, h);
        lemma_pair_recovery(k2, h - 1);
        assert((k2 / 2 + 1) * w < w * h && 0 <= k2 / 2 * w && (k2 / 2 + 1) * w == k2 / 2 * w + w)
            by (nonlinear_arith)
            requires 0 <= k2 / 2, k2 / 2 + 2 <= h, 1 <= w;
    } else {
        let k2 = k - right_wall_start(w, h);
        lemma_pair_recovery(k2, h - 1);
        assert((k2 / 2 + 2) * w - 1 < w * h && 1 <= (k2 / 2 + 1) * w && (k2 / 2 + 2) * w == (k2 / 2
            + 1) * w + w) by (nonlinear_arith)
            requires 0 <= k2 / 2, k2 / 2 + 2 <= h, 1 <= w;
    }
}

/// Plan the full lithophane mesh of a `width x height` point cloud: the
/// backing surface, the raised surface with mirrored winding, and the four
/// side walls, in that order, two triangles per block or boundary edge.
/// The plan holds exactly
/// `4*(width-1)*(height-1) + 4*(width-1) + 4*(height-1)` triangles, and
/// every reference points into a vertex list of `width * height` entries.
pub fn lithophane_mesh_plan(width: usize, height: usize) -> (r: Vec<TriangleRefs>)
    requires
        1 <= width,
        1 <= height,
        width * height <= usize::MAX,
        lithophane_triangle_count(width as int, height as int) <= usize::MAX,
    ensures
        r@.len() == lithophane_triangle_count(width as int, height as int),
        forall|k: int|
            0 <= k < r@.len() ==> r@[k] == plan_entry(width as int, height as int, k),
        forall|k: int|
            0 <= k < r@.len() ==> triangle_refs_in_bounds(
                #[trigger] r@[k],
                (width * height) as int,
            ),
{
    let mut r: Vec<TriangleRefs> = Vec::new();
    append_backing_triangles(&mut r, width, height);
    append_raised_triangles(&mut r, width, height);
    append_top_wall(&mut r, width, height);
    append_bottom_wall(&mut r, width, height);
    append_left_wall(&mut r, width, height);
    append_right_wall(&mut r, width, height);
    proof {
        assert forall|k: int| 0 <= k < r@.len() implies triangle_refs_in_bounds(
            #[trigger] r@[k],
            (width * height) as int,
        ) by {
            lemma_plan_entry_in_bounds(width as int, height as int, k);
        }
    }
    r
}

/// Plan the preview mesh of a `width x height` surface: two triangles per
/// 2x2 block over a single vertex list, `2*(width-1)*(height-1)` in all.
pub fn preview_mesh_plan(width: usize, height: usize) -> (r: Vec<(usize, usize, usize)>)
    requires
        1 <= width,
        1 <= height,
        width * height <= usize::MAX,
        preview_triangle_count(width as int, height as int) <= usize::MAX,
    ensures
        r@.len() == preview_triangle_count(width as int, height as int),
        forall|k: int|
            0 <= k < r@.len() ==> r@[k] == preview_entry(width as int, height as int, k),
        forall|k: int|
            0 <= k < r@.len() ==> preview_triple_in_bounds(
                #[trigger] r@[k],
                (width * height) as int,
            ),
{
    let ghost wi: int = width as int;
    let ghost hi: int = height as int;
    let mut r: Vec<(usize, usize, usize)> = Vec::new();
    if width < 2 || height < 2 {
        proof {
            assert(2 * (wi - 1) * (hi - 1) == 0) by (nonlinear_arith)
                requires wi == 1 || hi == 1;
        }
        return r;
    }
    let mut y: usize = 0;
    while y < height - 1
        invariant
            wi == width as int,
            hi == height as int,
            2 <= width,
            2 <= height,
            width * height <= usize::MAX,
            preview_triangle_count(wi, hi) <= usize::MAX,
            y <= height - 1,
            r@.len() == 2 * (y * (width - 1)),
            forall|k: int| 0 <= k < r@.len() ==> r@[k] == preview_entry(wi, hi, k),
            forall|k: int|
                0 <= k < r@.len() ==> preview_triple_in_bounds(
                    #[trigger] r@[k],
                    (width * height) as int,
                ),
        decreases height - 1 - y,
    {
        let mut x: usize = 0;
        proof {
            assert(2 * ((y + 1) * (wi - 1)) == 2 * (y * (wi - 1)) + 2 * (wi - 1) && 0 <= 2 * (y
                * (wi - 1))) by (nonlinear_arith)
                requires 0 <= y, 1 <= wi;
            assert(2 * ((y + 1) * (wi - 1)) <= 2 * (wi - 1) * (hi - 1)) by (nonlinear_arith)
                requires y + 1 <= hi - 1, 1 <= wi;
        }
        while x < width - 1
            invariant
                wi == width as int,
                hi == height as int,
                2 <= width,
                2 <= height,
                width * height <= usize::MAX,
                preview_triangle_count(wi, hi) <= usize::MAX,
                y < height - 1,
                x <= width - 1,
                2 * (y * (wi - 1)) + 2 * (wi - 1) <= preview_triangle_count(wi, hi),
                0 <= 2 * (y * (wi - 1)),
                r@.len() == 2 * (y * (wi - 1) + x),
                forall|k: int| 0 <= k < r@.len() ==> r@[k] == preview_entry(wi, hi, k),
                forall|k: int|
                    0 <= k < r@.len() ==> preview_triple_in_bounds(
                        #[trigger] r@[k],
                        (width * height) as int,
                    ),
            decreases width - 1 - x,
        {
            proof {
                lemma_quad_slot(wi, hi, y as int, x as int);
                assert((y + 1) * wi + x + 1 < wi * hi && 0 <= y * wi + x && (y + 1) * wi == y * wi
                    + wi && 2 * (y * (wi - 1) + x) + 2 == 2 * (y * (wi - 1) + (x + 1)))
                    by (nonlinear_arith)
                    requires 0 <= y, y + 2 <= hi, 0 <= x, x + 2 <= wi, 1 <= wi;
            }
            let base_i = y * width + x;
            let below_i = (y + 1) * width + x;
            r.push((base_i, below_i, below_i + 1));
            r.push((base_i, below_i + 1, base_i + 1));
            proof {
                let kk = 2 * (y as int * (wi - 1) + x as int);
                assert(r@[kk] == preview_entry(wi, hi, kk));
                assert(r@[kk + 1] == preview_entry(wi, hi, kk + 1));
            }
            x = x + 1;
        }
        proof {
            assert(2 * (y * (wi - 1) + (wi - 1)) == 2 * ((y + 1) * (wi - 1))) by (nonlinear_arith);
        }
        y = y + 1;
    }
    proof {
        assert(2 * ((hi - 1) * (wi - 1)) == 2 * (wi - 1) * (hi - 1)) by (nonlinear_arith);
    }
    r
}

/// What a vertex reference resolves to, given the backing and raised
/// vertex lists.
pub open spec fn resolve_vertex<T>(v: VertexRef, backing: Seq<T>, raised: Seq<T>) -> T {
    match v {
        VertexRef::Backing { index } => backing[index as int],
        VertexRef::Raised { index } => raised[index as int],
    }
}

pub open spec fn resolve_triangle<T>(t: TriangleRefs, backing: Seq<T>, raised: Seq<T>) -> (
    T,
    T,
    T,
) {
    (
        resolve_vertex(t.a, backing, raised),
        resolve_vertex(t.b, backing, raised),
        resolve_vertex(t.c, backing, raised),
    )
}

fn resolve_point<T: Copy>(v: VertexRef, backing: &Vec<T>, raised: &Vec<T>) -> (r: T)
    requires
        raised@.len() == backing@.len(),
        vertex_ref_in_bounds(v, backing@.len() as int),
    ensures
        r == resolve_vertex(v, backing@, raised@),
{
    match v {
        VertexRef::Backing { index } => backing[index],
        VertexRef::Raised { index } => raised[index],
    }
}

/// Look every planned triangle up in the two parallel vertex lists,
/// yielding the point triples, in plan order, that the triangle builder
/// receives.
pub fn gather_triangle_points<T: Copy>(
    plan: &Vec<TriangleRefs>,
    backing: &Vec<T>,
    raised: &Vec<T>,
) -> (r: Vec<(T, T, T)>)
    requires
        raised@.len() == backing@.len(),
        forall|k: int|
            0 <= k < plan@.len() ==> triangle_refs_in_bounds(
                #[trigger] plan@[k],
                backing@.len() as int,
            ),
    ensures
        r@.len() == plan@.len(),
        forall|k: int|
            0 <= k < plan@.len() ==> r@[k] == resolve_triangle(plan@[k], backing@, raised@),
{
    let mut r: Vec<(T, T, T)> = Vec::new();
    let mut i: usize = 0;
    while i < plan.len()
        invariant
            raised@.len() == backing@.len(),
            forall|k: int|
                0 <= k < plan@.len() ==> triangle_refs_in_bounds(
                    #[trigger] plan@[k],
                    backing@.len() as int,
                ),
            i <= plan@.len(),
            r@.len() == i,
            forall|k: int|
                0 <= k < i ==> r@[k] == resolve_triangle(plan@[k], backing@, raised@),
        decreases plan@.len() - i,
    {
        let t = plan[i];
        let pa = resolve_point(t.a, backing, raised);
        let pb = resolve_point(t.b, backing, raised);
        let pc = resolve_point(t.c, backing, raised);
        r.push((pa, pb, pc));
        i = i + 1;
    }
    r
}

/// Look every planned preview triangle up in the single vertex list of the
/// previewed surface.
pub fn gather_surface_points<T: Copy>(plan: &Vec<(usize, usize, usize)>, points: &Vec<T>) -> (r:
    Vec<(T, T, T)>)
    requires
        forall|k: int|
            0 <= k < plan@.len() ==> preview_triple_in_bounds(
                #[trigger] plan@[k],
                points@.len() as int,
            ),
    ensures
        r@.len() == plan@.len(),
        forall|k: int|
            0 <= k < plan@.len() ==> r@[k] == (
                points@[plan@[k].0 as int],
                points@[plan@[k].1 as int],
                points@[plan@[k].2 as int],
            ),
{
    let mut r: Vec<(T, T, T)> = Vec::new();
    let mut i: usize = 0;
    while i < plan.len()
        invariant
            forall|k: int|
                0 <= k < plan@.len() ==> preview_triple_in_bounds(
                    #[trigger] plan@[k],
                    points@.len() as int,
                ),
            i <= plan@.len(),
            r@.len() == i,
            forall|k: int|
                0 <= k < i ==> r@[k] == (
                    points@[plan@[k].0 as int],
                    points@[plan@[k].1 as int],
                    points@[plan@[k].2 as int],
                ),
        decreases plan@.len() - i,
    {
        let t = plan[i];
        r.push((points[t.0], points[t.1], points[t.2]));
        i = i + 1;
    }
    r
}

/// A vertex reference moved onto the raised surface.
pub open spec fn as_raised(v: VertexRef) -> VertexRef {
    match v {
        VertexRef::Backing { index } => VertexRef::Raised { index },
        VertexRef::Raised { index } => VertexRef::Raised { index },
    }
}

/// A planned triangle moved onto the raised surface with its winding
/// mirrored: the same three slots, traversed in the opposite orientation.
pub open spec fn mirrored_raised(t: TriangleRefs) -> TriangleRefs {
    (TriangleRefs { a: as_raised(t.a), b: as_raised(t.c), c: as_raised(t.b) })
}

/// Law: in a full plan, the raised surface repeats the backing surface
/// triangle by triangle — the triangle in raised slot `k` references the
/// same grid slots as the one in backing slot `k`, moved to the raised
/// vertices, with its winding mirrored, so the two surfaces face opposite
/// ways.
pub proof fn lemma_raised_mirrors_backing(w: int, h: int, k: int)
    requires
        1 <= w,
        1 <= h,
        0 <= k < backing_triangle_count(w, h),
    ensures
        plan_entry(w, h, backing_triangle_count(w, h) + k) == mirrored_raised(
            plan_entry(w, h, k),
        ),
{
    lemma_section_layout(w, h);
    lemma_mod_bound(k, 2);
    let kk = backing_triangle_count(w, h) + k;
    assert(kk - backing_triangle_count(w, h) == k);
    if k % 2 == 0 {
        assert(plan_entry(w, h, kk) == mirrored_raised(plan_entry(w, h, k)));
    } else {
        assert(plan_entry(w, h, kk) == mirrored_raised(plan_entry(w, h, k)));
    }
}

} // verus!
