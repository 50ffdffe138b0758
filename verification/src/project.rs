//! Geographic bounds and the projection from fixed-point latitude and
//! longitude onto an integer pixel grid.
//!
//! The projection preserves the geographic aspect ratio: the target height
//! is derived from the bounds and a fixed target width.  Each coordinate is
//! snapped to the pixel grid by flooring, then centered by subtracting half
//! the target size, so repeated runs on the same data give identical pixels.

use crate::graph::RawNode;
use crate::PipelineError;
use vstd::arithmetic::div_mod::lemma_div_is_ordered;
use vstd::arithmetic::div_mod::lemma_div_multiples_vanish;
use vstd::prelude::*;

verus! {

/// Largest coordinate magnitude the projection accepts.  Fixed-point
/// degrees never exceed 1 800 000 000 in magnitude, so this is generous,
/// and it keeps every intermediate product inside the machine word.
pub const COORD_LIMIT: i64 = 2_000_000_000;

/// Largest accepted target width, in pixels.
pub const MAX_TARGET_WIDTH: u64 = 1_000_000;

/// The bounding box of a node set.  Meaningful only for a non-empty set:
/// an empty graph has no bounds and bounds computation fails instead.
#[derive(Clone, Copy, PartialEq, Eq, Structural, Debug)]
pub struct Bounds {
    pub min_lat: i64,
    pub min_lon: i64,
    pub max_lat: i64,
    pub max_lon: i64,
}

/// Every coordinate of every node is at most `COORD_LIMIT` in magnitude.
pub open spec fn coords_bounded(nodes: Seq<RawNode>) -> bool {
    &&& forall|i: int|
        0 <= i < nodes.len() ==> -COORD_LIMIT <= #[trigger] nodes[i].lat <= COORD_LIMIT
    &&& forall|i: int|
        0 <= i < nodes.len() ==> -COORD_LIMIT <= #[trigger] nodes[i].lon <= COORD_LIMIT
}

/// The bounds live inside the coordinate limit and are properly ordered.
pub open spec fn bounds_wf(b: Bounds) -> bool {
    &&& -COORD_LIMIT <= b.min_lat <= b.max_lat <= COORD_LIMIT
    &&& -COORD_LIMIT <= b.min_lon <= b.max_lon <= COORD_LIMIT
}

/// Every node lies inside the bounds, on both axes.
pub open spec fn nodes_in_bounds(nodes: Seq<RawNode>, b: Bounds) -> bool {
    &&& forall|i: int|
        0 <= i < nodes.len() ==> b.min_lat <= #[trigger] nodes[i].lat <= b.max_lat
    &&& forall|i: int|
        0 <= i < nodes.len() ==> b.min_lon <= #[trigger] nodes[i].lon <= b.max_lon
}

/// The bounding box of a non-empty node sequence, folded left to right.
pub open spec fn spec_bounds(nodes: Seq<RawNode>) -> Bounds
    recommends
        nodes.len() > 0,
    decreases nodes.len(),
{
    if nodes.len() <= 1 {
        Bounds {
            min_lat: nodes[0].lat,
            min_lon: nodes[0].lon,
            max_lat: nodes[0].lat,
            max_lon: nodes[0].lon,
        }
    } else {
        let b = spec_bounds(nodes.drop_last());
        let n = nodes.last();
        Bounds {
            min_lat: if n.lat < b.min_lat { n.lat } else { b.min_lat },
            min_lon: if n.lon < b.min_lon { n.lon } else { b.min_lon },
            max_lat: if n.lat > b.max_lat { n.lat } else { b.max_lat },
            max_lon: if n.lon > b.max_lon { n.lon } else { b.max_lon },
        }
    }
}

/// The bounding box of a non-empty node set is ordered on both axes,
/// contains every node, and each of its four sides is attained by a node.
pub proof fn lemma_bounds_contain(nodes: Seq<RawNode>)
    requires
        nodes.len() > 0,
    ensures
        spec_bounds(nodes).min_lat <= spec_bounds(nodes).max_lat,
        spec_bounds(nodes).min_lon <= spec_bounds(nodes).max_lon,
        forall|i: int|
            0 <= i < nodes.len() ==> spec_bounds(nodes).min_lat <= #[trigger] nodes[i].lat
                <= spec_bounds(nodes).max_lat,
        forall|i: int|
            0 <= i < nodes.len() ==> spec_bounds(nodes).min_lon <= #[trigger] nodes[i].lon
                <= spec_bounds(nodes).max_lon,
        exists|i: int| 0 <= i < nodes.len() && #[trigger] nodes[i].lat == spec_bounds(nodes).min_lat,
        exists|i: int| 0 <= i < nodes.len() && #[trigger] nodes[i].lat == spec_bounds(nodes).max_lat,
        exists|i: int| 0 <= i < nodes.len() && #[trigger] nodes[i].lon == spec_bounds(nodes).min_lon,
        exists|i: int| 0 <= i < nodes.len() && #[trigger] nodes[i].lon == spec_bounds(nodes).max_lon,
    decreases nodes.len(),
{
    if nodes.len() == 1 {
        assert(nodes[0].lat == spec_bounds(nodes).min_lat);
        assert(nodes[0].lat == spec_bounds(nodes).max_lat);
        assert(nodes[0].lon == spec_bounds(nodes).min_lon);
        assert(nodes[0].lon == spec_bounds(nodes).max_lon);
    } else {
        let prefix = nodes.drop_last();
        lemma_bounds_contain(prefix);
        let b = spec_bounds(prefix);
        let full = spec_bounds(nodes);
        let last = nodes.len() - 1;
        assert(forall|i: int| 0 <= i < prefix.len() ==> prefix[i] == nodes[i]);
        if nodes.last().lat < b.min_lat {
            assert(nodes[last].lat == full.min_lat);
        } else {
            let w = choose|i: int| 0 <= i < prefix.len() && #[trigger] prefix[i].lat == b.min_lat;
            assert(nodes[w].lat == full.min_lat);
        }
        if nodes.last().lat > b.max_lat {
            assert(nodes[last].lat == full.max_lat);
        } else {
            let w = choose|i: int| 0 <= i < prefix.len() && #[trigger] prefix[i].lat == b.max_lat;
            assert(nodes[w].lat == full.max_lat);
        }
        if nodes.last().lon < b.min_lon {
            assert(nodes[last].lon == full.min_lon);
        } else {
            let w = choose|i: int| 0 <= i < prefix.len() && #[trigger] prefix[i].lon == b.min_lon;
            assert(nodes[w].lon == full.min_lon);
        }
        if nodes.last().lon > b.max_lon {
            assert(nodes[last].lon == full.max_lon);
        } else {
            let w = choose|i: int| 0 <= i < prefix.len() && #[trigger] prefix[i].lon == b.max_lon;
            assert(nodes[w].lon == full.max_lon);
        }
    }
}

/// Bounded coordinates give well-formed bounds.
pub proof fn lemma_bounds_wf(nodes: Seq<RawNode>)
    requires
        nodes.len() > 0,
        coords_bounded(nodes),
    ensures
        bounds_wf(spec_bounds(nodes)),
{
    lemma_bounds_contain(nodes);
    let b = spec_bounds(nodes);
    let i1 = choose|i: int| 0 <= i < nodes.len() && #[trigger] nodes[i].lat == b.min_lat;
    let i2 = choose|i: int| 0 <= i < nodes.len() && #[trigger] nodes[i].lat == b.max_lat;
    let i3 = choose|i: int| 0 <= i < nodes.len() && #[trigger] nodes[i].lon == b.min_lon;
    let i4 = choose|i: int| 0 <= i < nodes.len() && #[trigger] nodes[i].lon == b.max_lon;
    assert(-COORD_LIMIT <= nodes[i1].lat <= COORD_LIMIT);
    assert(-COORD_LIMIT <= nodes[i2].lat <= COORD_LIMIT);
    assert(-COORD_LIMIT <= nodes[i3].lon <= COORD_LIMIT);
    assert(-COORD_LIMIT <= nodes[i4].lon <= COORD_LIMIT);
}

/// Scans all nodes for their bounding box; an empty graph has none.
pub fn compute_bounds(nodes: &Vec<RawNode>) -> (r: Result<Bounds, PipelineError>)
    ensures
        match r {
            Ok(b) => nodes@.len() > 0 && b == spec_bounds(nodes@),
            Err(e) => nodes@.len() == 0 && e == PipelineError::EmptyGraph,
        },
{
    let n = nodes.len();
    if n == 0 {
        return Err(PipelineError::EmptyGraph);
    }
    let first = nodes[0];
    let mut b = Bounds {
        min_lat: first.lat,
        min_lon: first.lon,
        max_lat: first.lat,
        max_lon: first.lon,
    };
    let mut i: usize = 1;
    proof {
        assert(nodes@.take(1) =~= seq![nodes@[0]]);
    }
    while i < n
        invariant
            1 <= i <= n == nodes@.len(),
            b == spec_bounds(nodes@.take(i as int)),
        decreases n - i,
    {
        let node = nodes[i];
        if node.lat < b.min_lat {
            b.min_lat = node.lat;
        }
        if node.lat > b.max_lat {
            b.max_lat = node.lat;
        }
        if node.lon < b.min_lon {
            b.min_lon = node.lon;
        }
        if node.lon > b.max_lon {
            b.max_lon = node.lon;
        }
        proof {
            assert(nodes@.take(i as int + 1).drop_last() =~= nodes@.take(i as int));
            assert(nodes@.take(i as int + 1).last() == nodes@[i as int]);
        }
        i = i + 1;
    }
    proof {
        assert(nodes@.take(n as int) =~= nodes@);
    }
    Ok(b)
}

/// The height that preserves the bounds' aspect ratio against `width`:
/// the latitude span over the longitude span, scaled and floored.
pub open spec fn spec_target_height(b: Bounds, width: int) -> int
    recommends
        b.max_lon > b.min_lon,
{
    (b.max_lat - b.min_lat) * width / (b.max_lon - b.min_lon)
}

/// The pixel column of `lon`: its position inside the longitude span,
/// scaled to `width`, floored to the grid, then centered.
pub open spec fn spec_project_x(b: Bounds, width: int, lon: int) -> int
    recommends
        b.max_lon > b.min_lon,
{
    (lon - b.min_lon) * width / (b.max_lon - b.min_lon) - width / 2
}

/// The pixel row of `lat`, as `spec_project_x` with the latitude span
/// and the derived height.
pub open spec fn spec_project_y(b: Bounds, height: int, lat: int) -> int
    recommends
        b.max_lat > b.min_lat,
{
    (lat - b.min_lat) * height / (b.max_lat - b.min_lat) - height / 2
}

/// Derives the aspect-preserving target height for `b` at `target_width`.
/// Fails with `DegenerateBounds` when the longitude span is zero (the
/// ratio is undefined) or the derived height would not be positive.
pub fn make_transform(b: &Bounds, target_width: u64) -> (r: Result<u64, PipelineError>)
    requires
        bounds_wf(*b),
        1 <= target_width <= MAX_TARGET_WIDTH,
    ensures
        match r {
            Ok(h) => b.max_lon > b.min_lon && h == spec_target_height(*b, target_width as int)
                && 1 <= h <= 4_000_000_000_000_000,
            Err(e) => e == PipelineError::DegenerateBounds && (b.max_lon == b.min_lon
                || spec_target_height(*b, target_width as int) <= 0),
        },
{
    if b.max_lon == b.min_lon {
        return Err(PipelineError::DegenerateBounds);
    }
    let dlon: u64 = (b.max_lon - b.min_lon) as u64;
    let dlat: u64 = (b.max_lat - b.min_lat) as u64;
    proof {
        assert(dlat * target_width <= 4_000_000_000_000_000) by (nonlinear_arith)
            requires
                0 <= dlat <= 4_000_000_000,
                0 <= target_width <= 1_000_000,
        ;
    }
    let h: u64 = dlat * target_width / dlon;
    proof {
        assert(dlat * target_width <= dlon * 4_000_000_000_000_000) by (nonlinear_arith)
            requires
                0 <= dlat * target_width <= 4_000_000_000_000_000,
                1 <= dlon,
        ;
        lemma_div_is_ordered(
            dlat * target_width,
            dlon * 4_000_000_000_000_000,
            dlon as int,
        );
        lemma_div_multiples_vanish(4_000_000_000_000_000, dlon as int);
    }
    if h == 0 {
        return Err(PipelineError::DegenerateBounds);
    }
    Ok(h)
}

/// The raster-output policy: flips a pixel row for consumers that draw
/// top-down instead of using centered scene coordinates.  The flip is a
/// per-consumer choice and is explicit at the call site, never implied.
pub fn flip_row(target_height: u64, row: u64) -> (r: u64)
    requires
        row < target_height,
    ensures
        r == target_height - 1 - row,
        r < target_height,
{
    target_height - 1 - row
}

/// Projects one geographic point into centered pixel space, exactly as
/// `spec_project_x` and `spec_project_y` state.
pub fn project_point(b: &Bounds, target_width: u64, target_height: u64, lat: i64, lon: i64) -> (p: (
    i64,
    i64,
))
    requires
        bounds_wf(*b),
        1 <= target_width <= MAX_TARGET_WIDTH,
        1 <= target_height <= 4_000_000_000_000_000,
        b.max_lon > b.min_lon,
        b.max_lat > b.min_lat,
        b.min_lat <= lat <= b.max_lat,
        b.min_lon <= lon <= b.max_lon,
    ensures
        p.0 == spec_project_x(*b, target_width as int, lon as int),
        p.1 == spec_project_y(*b, target_height as int, lat as int),
{
    let dlon: u64 = (b.max_lon - b.min_lon) as u64;
    let dlat: u64 = (b.max_lat - b.min_lat) as u64;
    let off_lon: u64 = (lon - b.min_lon) as u64;
    let off_lat: u64 = (lat - b.min_lat) as u64;

    proof {
        assert(off_lon * target_width <= 4_000_000_000_000_000) by (nonlinear_arith)
            requires
                0 <= off_lon <= 4_000_000_000,
                0 <= target_width <= 1_000_000,
        ;
    }
    let qx: u64 = off_lon * target_width / dlon;
    proof {
        assert(off_lon * target_width <= dlon * target_width) by (nonlinear_arith)
            requires
                0 <= off_lon <= dlon,
                0 <= target_width,
        ;
        lemma_div_is_ordered(
            off_lon * target_width,
            dlon * target_width,
            dlon as int,
        );
        lemma_div_multiples_vanish(target_width as int, dlon as int);
    }
    let x: i64 = (qx as i64) - ((target_width / 2) as i64);

    proof {
        assert((off_lat as int) * (target_height as int)
            <= 16_000_000_000_000_000_000_000_000) by (nonlinear_arith)
            requires
                0 <= off_lat <= 4_000_000_000,
                0 <= target_height <= 4_000_000_000_000_000,
        ;
    }
    let num_y: u128 = (off_lat as u128) * (target_height as u128);
    let qy: u128 = num_y / (dlat as u128);
    proof {
        assert(off_lat * target_height <= dlat * target_height) by (nonlinear_arith)
            requires
                0 <= off_lat <= dlat,
                0 <= target_height,
        ;
        lemma_div_is_ordered(
            off_lat * target_height,
            dlat * target_height,
            dlat as int,
        );
        lemma_div_multiples_vanish(target_height as int, dlat as int);
    }
    let y: i64 = (qy as i64) - ((target_height / 2) as i64);
    (x, y)
}

} // verus!
