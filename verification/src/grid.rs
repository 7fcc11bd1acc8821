//! The bordered vertex grid: sampling order, border stripping, and the
//! neighbour indices that normal estimation reads.
//!
//! The grid is a flat, row-major buffer of `ewc * ehc` entries, where `ewc`
//! and `ehc` are the extended (bordered) counts of the two axis index
//! sequences. The outer one-entry ring exists only so that every interior
//! vertex has all four axis-aligned neighbours; it is stripped before the
//! mesh is assembled.

use crate::indices::{extended_count, step_index_at, step_iter_with_size};
use vstd::prelude::*;

verus! {

/// The pair of axis indices at which row `y`, column `x` of the bordered
/// grid samples the coordinate functions.
pub open spec fn sample_position_at(width: u32, height: u32, step: u32, y: int, x: int) -> (
    i64,
    i64,
) {
    (
        step_index_at(width as int, step as int, x) as i64,
        step_index_at(height as int, step as int, y) as i64,
    )
}

/// Flat slot of row `y`, column `x` in the row-major sample list.
pub open spec fn sample_slot(width: u32, step: u32, y: int, x: int) -> int {
    y * extended_count(width as int, step as int) + x
}

/// Row-major list of the axis-index pairs at which the bordered grid samples
/// the three coordinate functions: the x-axis sequence varies fastest, as
/// the grid is evaluated row by row.
pub fn grid_sample_positions(width: u32, height: u32, step: u32) -> (r: Vec<(i64, i64)>)
    requires
        1 <= width,
        1 <= height,
        1 <= step,
        extended_count(width as int, step as int) * extended_count(height as int, step as int)
            <= usize::MAX,
    ensures
        r@.len() == extended_count(height as int, step as int) * extended_count(
            width as int,
            step as int,
        ),
        forall|y: int, x: int|
            0 <= y < extended_count(height as int, step as int) && 0 <= x < extended_count(
                width as int,
                step as int,
            ) ==> r@[#[trigger] sample_slot(width, step, y, x)] == sample_position_at(
                width,
                height,
                step,
                y,
                x,
            ),
{
    let ghost wi: int = width as int;
    let ghost hi: int = height as int;
    let ghost si: int = step as int;
    let xs = step_iter_with_size(width, step);
    let ys = step_iter_with_size(height, step);
    let ghost ecw: int = extended_count(wi, si);
    let ghost ech: int = extended_count(hi, si);

    let mut r: Vec<(i64, i64)> = Vec::new();
    let mut y: usize = 0;
    while y < ys.len()
        invariant
            wi == width as int,
            hi == height as int,
            si == step as int,
            ecw == extended_count(wi, si),
            ech == extended_count(hi, si),
            xs@.len() == ecw,
            ys@.len() == ech,
            ecw * ech <= usize::MAX,
            1 <= ecw,
            1 <= ech,
            forall|k: int| 0 <= k < ecw ==> xs@[k] == step_index_at(wi, si, k),
            forall|k: int| 0 <= k < ech ==> ys@[k] == step_index_at(hi, si, k),
            y <= ech,
            r@.len() == y * ecw,
            forall|y2: int, x2: int|
                0 <= y2 < y && 0 <= x2 < ecw ==> r@[#[trigger] sample_slot(width, step, y2, x2)]
                    == sample_position_at(width, height, step, y2, x2),
        decreases ech - y,
    {
        let mut x: usize = 0;
        proof {
            assert((y + 1) * ecw == y * ecw + ecw && 0 <= y * ecw) by (nonlinear_arith)
                requires 0 <= y, 1 <= ecw;
            assert((y + 1) * ecw <= ecw * ech) by (nonlinear_arith)
                requires y + 1 <= ech, 1 <= ecw;
        }
        while x < xs.len()
            invariant
                wi == width as int,
                hi == height as int,
                si == step as int,
                ecw == extended_count(wi, si),
                ech == extended_count(hi, si),
                xs@.len() == ecw,
                ys@.len() == ech,
                1 <= ecw,
                1 <= ech,
                forall|k: int| 0 <= k < ecw ==> xs@[k] == step_index_at(wi, si, k),
                forall|k: int| 0 <= k < ech ==> ys@[k] == step_index_at(hi, si, k),
                y < ech,
                x <= ecw,
                y * ecw + ecw <= usize::MAX,
                r@.len() == y * ecw + x,
                forall|y2: int, x2: int|
                    0 <= y2 < y && 0 <= x2 < ecw ==> r@[#[trigger] sample_slot(
                        width,
                        step,
                        y2,
                        x2,
                    )] == sample_position_at(width, height, step, y2, x2),
                forall|x2: int|
                    0 <= x2 < x ==> r@[#[trigger] sample_slot(width, step, y as int, x2)]
                        == sample_position_at(width, height, step, y as int, x2),
            decreases ecw - x,
        {
            r.push((xs[x], ys[y]));
            proof {
                assert forall|y2: int, x2: int| 0 <= y2 < y && 0 <= x2 < ecw implies #[trigger]
                    sample_slot(width, step, y2, x2) < y * ecw + x by {
                    assert(y2 * ecw + x2 < y * ecw) by (nonlinear_arith)
                        requires y2 + 1 <= y, 0 <= x2 < ecw;
                }
                assert(r@[sample_slot(width, step, y as int, x as int)] == sample_position_at(
                    width,
                    height,
                    step,
                    y as int,
                    x as int,
                ));
            }
            x = x + 1;
        }
        y = y + 1;
    }
    r
}

/// Flat slot of interior row `y`, column `x` in the border-stripped grid of
/// a bordered grid `ewc` entries wide.
pub open spec fn interior_slot(ewc: usize, y: int, x: int) -> int {
    y * (ewc - 2) + x
}

/// Flat slot, in the bordered grid itself, of the vertex at interior row
/// `y`, column `x`.
pub open spec fn bordered_slot(ewc: usize, y: int, x: int) -> int {
    (y + 1) * ewc + (x + 1)
}

/// Drop the one-entry synthetic border of a bordered row-major grid,
/// keeping the `(ewc - 2) * (ehc - 2)` interior entries in row-major order.
pub fn strip_border<T: Copy>(grid: &Vec<T>, ewc: usize, ehc: usize) -> (r: Vec<T>)
    requires
        2 <= ewc,
        2 <= ehc,
        ewc * ehc <= usize::MAX,
        grid@.len() == ewc * ehc,
    ensures
        r@.len() == (ewc - 2) * (ehc - 2),
        forall|y: int, x: int|
            0 <= y < ehc - 2 && 0 <= x < ewc - 2 ==> r@[#[trigger] interior_slot(ewc, y, x)]
                == grid@[bordered_slot(ewc, y, x)],
{
    let wc = ewc - 2;
    let hc = ehc - 2;
    let mut r: Vec<T> = Vec::new();
    let mut y: usize = 0;
    while y < hc
        invariant
            wc == ewc - 2,
            hc == ehc - 2,
            2 <= ewc,
            2 <= ehc,
            ewc * ehc <= usize::MAX,
            grid@.len() == ewc * ehc,
            y <= hc,
            r@.len() == y * wc,
            forall|y2: int, x2: int|
                0 <= y2 < y && 0 <= x2 < wc ==> r@[#[trigger] interior_slot(ewc, y2, x2)]
                    == grid@[bordered_slot(ewc, y2, x2)],
        decreases hc - y,
    {
        let mut x: usize = 0;
        proof {
            assert((y + 1) * wc == y * wc + wc && 0 <= y * wc && (y + 1) * wc <= hc * wc)
                by (nonlinear_arith)
                requires 0 <= y, 0 <= wc, y + 1 <= hc;
            assert(hc * wc <= ehc * ewc) by (nonlinear_arith)
                requires 0 <= wc <= ewc, 0 <= hc <= ehc;
            assert((y + 1) * ewc + ewc == (y + 2) * ewc && (y + 2) * ewc <= ehc * ewc
                && 0 <= (y + 1) * ewc) by (nonlinear_arith)
                requires 0 <= y, y + 2 <= ehc, 2 <= ewc;
            assert(ehc * ewc == ewc * ehc) by (nonlinear_arith);
        }
        while x < wc
            invariant
                wc == ewc - 2,
                hc == ehc - 2,
                2 <= ewc,
                2 <= ehc,
                ewc * ehc <= usize::MAX,
                grid@.len() == ewc * ehc,
                y < hc,
                x <= wc,
                (y + 1) * ewc + ewc <= grid@.len(),
                0 <= (y + 1) * ewc,
                y * wc + wc <= usize::MAX,
                r@.len() == y * wc + x,
                forall|y2: int, x2: int|
                    0 <= y2 < y && 0 <= x2 < wc ==> r@[#[trigger] interior_slot(ewc, y2, x2)]
                        == grid@[bordered_slot(ewc, y2, x2)],
                forall|x2: int|
                    0 <= x2 < x ==> r@[#[trigger] interior_slot(ewc, y as int, x2)]
                        == grid@[bordered_slot(ewc, y as int, x2)],
            decreases wc - x,
        {
            let idx = (y + 1) * ewc + (x + 1);
            r.push(grid[idx]);
            proof {
                assert forall|y2: int, x2: int| 0 <= y2 < y && 0 <= x2 < wc implies #[trigger]
                    interior_slot(ewc, y2, x2) < y * wc + x by {
                    assert(y2 * (ewc - 2) + x2 < y * (ewc - 2) + x) by (nonlinear_arith)
                        requires y2 + 1 <= y, 0 <= x2 < ewc - 2, 0 <= x;
                }
                assert(r@[interior_slot(ewc, y as int, x as int)] == grid@[bordered_slot(
                    ewc,
                    y as int,
                    x as int,
                )]);
            }
            x = x + 1;
        }
        y = y + 1;
    }
    proof {
        assert(hc * wc == (ewc - 2) * (ehc - 2)) by (nonlinear_arith)
            requires wc == ewc - 2, hc == ehc - 2;
    }
    r
}

/// The five flat grid slots that the normal of one interior vertex reads:
/// the vertex itself and its four axis-aligned neighbours in the bordered
/// grid.
pub struct NormalSources {
    pub center: usize,
    pub below: usize,
    pub right: usize,
    pub above: usize,
    pub left: usize,
}

/// The sources for the interior vertex in column `x` of row `y` (interior
/// coordinates) of a bordered grid `ewc` wide.
pub open spec fn normal_sources_at(ewc: usize, y: int, x: int) -> NormalSources {
    (NormalSources {
        center: ((y + 1) * ewc + x + 1) as usize,
        below: ((y + 2) * ewc + x + 1) as usize,
        right: ((y + 1) * ewc + x + 2) as usize,
        above: (y * ewc + x + 1) as usize,
        left: ((y + 1) * ewc + x) as usize,
    })
}

/// All five source slots lie inside a grid of `len` entries.
pub open spec fn sources_in_bounds(s: NormalSources, len: int) -> bool {
    &&& s.center < len
    &&& s.below < len
    &&& s.right < len
    &&& s.above < len
    &&& s.left < len
}

/// For every interior vertex of a bordered `ewc * ehc` grid, in row-major
/// interior order, the flat slots of the vertex and of the four neighbours
/// from which its surface normal is estimated: one finite-difference cross
/// product uses the vertices below and to the right, the other the vertices
/// above and to the left.
pub fn normal_source_indices(ewc: usize, ehc: usize) -> (r: Vec<NormalSources>)
    requires
        2 <= ewc,
        2 <= ehc,
        ewc * ehc <= usize::MAX,
    ensures
        r@.len() == (ewc - 2) * (ehc - 2),
        forall|y: int, x: int|
            0 <= y < ehc - 2 && 0 <= x < ewc - 2 ==> r@[interior_slot(ewc, y, x)]
                == #[trigger] normal_sources_at(ewc, y, x),
        forall|y: int, x: int|
            0 <= y < ehc - 2 && 0 <= x < ewc - 2 ==> sources_in_bounds(
                #[trigger] normal_sources_at(ewc, y, x),
                (ewc * ehc) as int,
            ),
{
    let wc = ewc - 2;
    let hc = ehc - 2;
    let mut r: Vec<NormalSources> = Vec::new();
    let mut y: usize = 0;
    while y < hc
        invariant
            wc == ewc - 2,
            hc == ehc - 2,
            2 <= ewc,
            2 <= ehc,
            ewc * ehc <= usize::MAX,
            y <= hc,
            r@.len() == y * wc,
            forall|y2: int, x2: int|
                0 <= y2 < y && 0 <= x2 < wc ==> r@[interior_slot(ewc, y2, x2)]
                    == #[trigger] normal_sources_at(ewc, y2, x2),
        decreases hc - y,
    {
        let mut x: usize = 0;
        proof {
            assert((y + 1) * wc == y * wc + wc && 0 <= y * wc && (y + 1) * wc <= hc * wc)
                by (nonlinear_arith)
                requires 0 <= y, 0 <= wc, y + 1 <= hc;
            assert(hc * wc <= ehc * ewc) by (nonlinear_arith)
                requires 0 <= wc <= ewc, 0 <= hc <= ehc;
            assert((y + 1) * ewc == y * ewc + ewc && (y + 2) * ewc == y * ewc + 2 * ewc
                && 0 <= y * ewc) by (nonlinear_arith)
                requires 0 <= y;
            assert((y + 2) * ewc + ewc <= ehc * ewc) by (nonlinear_arith)
                requires y + 3 <= ehc, 0 <= ewc;
            assert(ehc * ewc == ewc * ehc) by (nonlinear_arith);
        }
        while x < wc
            invariant
                wc == ewc - 2,
                hc == ehc - 2,
                2 <= ewc,
                2 <= ehc,
                ewc * ehc <= usize::MAX,
                y < hc,
                x <= wc,
                (y + 1) * ewc == y * ewc + ewc,
                (y + 2) * ewc == y * ewc + 2 * ewc,
                (y + 2) * ewc + ewc <= ewc * ehc,
                0 <= y * ewc,
                y * wc + wc <= usize::MAX,
                r@.len() == y * wc + x,
                forall|y2: int, x2: int|
                    0 <= y2 < y && 0 <= x2 < wc ==> r@[interior_slot(ewc, y2, x2)]
                        == #[trigger] normal_sources_at(ewc, y2, x2),
                forall|x2: int|
                    0 <= x2 < x ==> r@[interior_slot(ewc, y as int, x2)]
                        == #[trigger] normal_sources_at(ewc, y as int, x2),
            decreases wc - x,
        {
            let row1 = (y + 1) * ewc;
            let entry = NormalSources {
                center: row1 + x + 1,
                below: row1 + ewc + x + 1,
                right: row1 + x + 2,
                above: row1 - ewc + x + 1,
                left: row1 + x,
            };
            r.push(entry);
            proof {
                assert forall|y2: int, x2: int| 0 <= y2 < y && 0 <= x2 < wc implies #[trigger]
                    interior_slot(ewc, y2, x2) < y * wc + x by {
                    assert(y2 * (ewc - 2) + x2 < y * (ewc - 2) + x) by (nonlinear_arith)
                        requires y2 + 1 <= y, 0 <= x2 < ewc - 2, 0 <= x;
                }
                assert(r@[interior_slot(ewc, y as int, x as int)] == normal_sources_at(
                    ewc,
                    y as int,
                    x as int,
                ));
            }
            x = x + 1;
        }
        y = y + 1;
    }
    proof {
        assert(hc * wc == (ewc - 2) * (ehc - 2)) by (nonlinear_arith)
            requires wc == ewc - 2, hc == ehc - 2;
        assert forall|y: int, x: int|
            0 <= y < ehc - 2 && 0 <= x < ewc - 2 implies sources_in_bounds(
            #[trigger] normal_sources_at(ewc, y, x),
            (ewc * ehc) as int,
        ) by {
            assert((y + 2) * ewc + x + 2 <= ehc * ewc && 0 <= y * ewc && (y + 1) * ewc == y * ewc
                + ewc && (y + 2) * ewc == y * ewc + 2 * ewc) by (nonlinear_arith)
                requires 0 <= y, 0 <= x, y + 3 <= ehc, x + 2 <= ewc, 2 <= ewc;
            assert(ehc * ewc == ewc * ehc) by (nonlinear_arith);
        }
    }
    r
}

} // verus!
