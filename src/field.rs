//! Field generation: every texel of the canvas is mapped to a point of the
//! visible domain and handed to the field kernel.

use crate::params::{valid_range, ComputeData};
use crate::postprocess::{
    cdf_table, equalized, histogram_counts, included_count, post_process, recalibrated_seq, stats_of,
    PostProcessingData,
};
use crate::viewport::{map_spec, pair_int};
use vstd::prelude::*;

verus! {

/// The point of the domain that texel `(tx, ty)` of a `size` canvas shows:
/// the texel grid mapped linearly onto the ranges.
pub open spec fn texel_point_spec(p: ComputeData, size: (u32, u32), tx: int, ty: int) -> (i64, i64) {
    (
        map_spec(tx, (0, size.0 as int), pair_int(p.x_range)) as i64,
        map_spec(ty, (0, size.1 as int), pair_int(p.y_range)) as i64,
    )
}

/// The point shown by the texel at row-major index `k`.
pub open spec fn texel_point_at(p: ComputeData, size: (u32, u32), k: int) -> (i64, i64) {
    texel_point_spec(p, size, k % (size.0 as int), k / (size.0 as int))
}

proof fn lemma_map_within(t: int, n: int, r: (i64, i64))
    requires
        0 <= t < n,
        valid_range(r),
    ensures
        r.0 <= map_spec(t, (0, n), pair_int(r)) < r.1,
{
    let w = r.1 - r.0;
    assert(0 <= t * w < n * w) by (nonlinear_arith)
        requires
            0 <= t < n,
            w > 0,
    ;
    assert(0 <= (t * w) / n < w) by (nonlinear_arith)
        requires
            0 <= t * w < n * w,
            n > 0,
    ;
}

/// The point of the domain shown by texel `(tx, ty)` of a `size` canvas.
pub fn texel_point(params: &ComputeData, size: (u32, u32), tx: u32, ty: u32) -> (r: (i64, i64))
    requires
        params.wf(),
        tx < size.0,
        ty < size.1,
    ensures
        r == texel_point_spec(*params, size, tx as int, ty as int),
{
    proof {
        lemma_map_within(tx as int, size.0 as int, params.x_range);
        lemma_map_within(ty as int, size.1 as int, params.y_range);
        let wx = params.x_range.1 - params.x_range.0;
        let wy = params.y_range.1 - params.y_range.0;
        let a = tx as int;
        let b = ty as int;
        assert(0 <= a * wx <= 0x1_0000_0000 * 0x1_0000_0000_0000_0000) by (nonlinear_arith)
            requires
                0 <= a < 0x1_0000_0000,
                0 < wx < 0x1_0000_0000_0000_0000,
        ;
        assert(0 <= b * wy <= 0x1_0000_0000 * 0x1_0000_0000_0000_0000) by (nonlinear_arith)
            requires
                0 <= b < 0x1_0000_0000,
                0 < wy < 0x1_0000_0000_0000_0000,
        ;
    }
    let x = crate::viewport::map(tx as i64, (0, size.0 as i64), params.x_range);
    let y = crate::viewport::map(ty as i64, (0, size.1 as i64), params.y_range);
    match (x, y) {
        (Some(a), Some(b)) => (a, b),
        _ => (0, 0),
    }
}

/// The field generation stage: a `size` canvas, row after row, where each
/// texel holds what `kernel` returns for the point it shows.
pub fn generate_field<F: Fn(i64, i64) -> i64>(params: &ComputeData, size: (u32, u32), kernel: &F) -> (r: Vec<i64>)
    requires
        params.wf(),
        size.0 as int * size.1 as int <= usize::MAX,
        forall|x: i64, y: i64| kernel.requires((x, y)),
    ensures
        r@.len() == size.0 as int * size.1 as int,
        forall|k: int|
            0 <= k < r@.len() ==> kernel.ensures(
                (texel_point_at(*params, size, k).0, texel_point_at(*params, size, k).1),
                #[trigger] r@[k],
            ),
{
    let mut canvas: Vec<i64> = Vec::new();
    let mut ty: u32 = 0;
    while ty < size.1
        invariant
            params.wf(),
            forall|x: i64, y: i64| kernel.requires((x, y)),
            ty <= size.1,
            canvas@.len() == ty as int * size.0 as int,
            forall|k: int|
                0 <= k < canvas@.len() ==> kernel.ensures(
                    (texel_point_at(*params, size, k).0, texel_point_at(*params, size, k).1),
                    #[trigger] canvas@[k],
                ),
        decreases size.1 - ty,
    {
        let mut tx: u32 = 0;
        while tx < size.0
            invariant
                params.wf(),
                forall|x: i64, y: i64| kernel.requires((x, y)),
                ty < size.1,
                tx <= size.0,
                canvas@.len() == ty as int * size.0 as int + tx,
                forall|k: int|
                    0 <= k < canvas@.len() ==> kernel.ensures(
                        (texel_point_at(*params, size, k).0, texel_point_at(*params, size, k).1),
                        #[trigger] canvas@[k],
                    ),
            decreases size.0 - tx,
        {
            let (px, py) = texel_point(params, size, tx, ty);
            let v = kernel(px, py);
            proof {
                let k = ty as int * size.0 as int + tx as int;
                let w = size.0 as int;
                assert(k % w == tx as int && k / w == ty as int) by (nonlinear_arith)
                    requires
                        k == ty as int * w + tx as int,
                        0 <= tx < w,
                        ty >= 0,
                ;
                assert(ty as int * size.0 as int + tx < size.0 as int * size.1 as int) by (nonlinear_arith)
                    requires
                        ty < size.1,
                        tx < size.0,
                ;
            }
            canvas.push(v);
            tx = tx + 1;
        }
        proof {
            assert((ty + 1) as int * size.0 as int == ty as int * size.0 as int + size.0 as int)
                by (nonlinear_arith);
        }
        ty = ty + 1;
    }
    assert(ty as int * size.0 as int == size.0 as int * size.1 as int) by (nonlinear_arith)
        requires
            ty == size.1,
    ;
    canvas
}

/// One full compute sequence on a `size` canvas: field generation, then the
/// post-processing stages with the given histogram threshold. The result
/// has exactly the texels of `size`.
pub fn compute_sequence<F: Fn(i64, i64) -> i64>(
    params: &ComputeData,
    size: (u32, u32),
    threshold: i64,
    kernel: &F,
) -> (r: (Vec<i64>, PostProcessingData))
    requires
        params.wf(),
        size.0 as int * size.1 as int <= usize::MAX,
        forall|x: i64, y: i64| kernel.requires((x, y)),
    ensures
        r.0@.len() == size.0 as int * size.1 as int,
        r.1.histogram.wf(),
        exists|g: Seq<i64>|
            {
                &&& g.len() == size.0 as int * size.1 as int
                &&& forall|k: int|
                    0 <= k < g.len() ==> kernel.ensures(
                        (texel_point_at(*params, size, k).0, texel_point_at(*params, size, k).1),
                        #[trigger] g[k],
                    )
                &&& r.1.stats == stats_of(g)
                &&& r.1.cdf.table@ == cdf_table(
                    histogram_counts(recalibrated_seq(g, stats_of(g)), threshold),
                    included_count(recalibrated_seq(g, stats_of(g)), threshold) as int,
                )
                &&& r.0@ == equalized(recalibrated_seq(g, stats_of(g)), r.1.cdf.table@)
            },
{
    let mut canvas = generate_field(params, size, kernel);
    let ghost g = canvas@;
    let data = post_process(&mut canvas, threshold);
    assert(data.stats == stats_of(g));
    (canvas, data)
}

} // verus!
