//! Turns a raw street graph into an ordered sequence of pixel-space road
//! segments: the bounding box is scanned, the aspect-preserving transform is
//! derived, every way's node references are resolved and projected in order,
//! and each consecutive point pair becomes one segment.  Way-list order and
//! point order are preserved, so the output is deterministic.
//!
//! Segments carry exact integer pixel endpoints.  The renderer's uniform
//! visual scale and its derived angle and Euclidean length are
//! floating-point presentation work: they are computed at the drawing
//! edge, outside this crate, from both endpoints of a segment at once, so
//! visual scale and geometric derivation stay consistent.

use crate::graph::find_node;
use crate::graph::lemma_find_node_in;
use crate::graph::spec_find_node;
use crate::graph::RawNode;
use crate::graph::RawWay;
use crate::graph::RawWayView;
use crate::graph::RoadGraph;
use crate::project::bounds_wf;
use crate::project::compute_bounds;
use crate::project::coords_bounded;
use crate::project::lemma_bounds_contain;
use crate::project::lemma_bounds_wf;
use crate::project::make_transform;
use crate::project::nodes_in_bounds;
use crate::project::project_point;
use crate::project::spec_bounds;
use crate::project::spec_project_x;
use crate::project::spec_project_y;
use crate::project::spec_target_height;
use crate::project::Bounds;
use crate::project::MAX_TARGET_WIDTH;
use crate::PipelineError;
use vstd::arithmetic::div_mod::lemma_div_basics;
use vstd::prelude::*;

verus! {

/// One projected straight-line piece of a way, between two consecutive
/// nodes, in centered pixel space.  Derived, never persisted.
#[derive(Clone, Copy, PartialEq, Eq, Structural, Debug)]
pub struct RoadSegment {
    pub start_x: i64,
    pub start_y: i64,
    pub end_x: i64,
    pub end_y: i64,
}

/// The pixel point of one node under the transform.
pub open spec fn spec_node_point(b: Bounds, width: int, height: int, n: RawNode) -> (i64, i64) {
    (
        spec_project_x(b, width, n.lon as int) as i64,
        spec_project_y(b, height, n.lat as int) as i64,
    )
}

/// The projected point list of one way: every node reference resolved in
/// order, or nothing if any reference is absent from the node mapping.
pub open spec fn spec_way_points(
    nodes: Seq<RawNode>,
    ids: Seq<i64>,
    b: Bounds,
    width: int,
    height: int,
) -> Option<Seq<(i64, i64)>>
    decreases ids.len(),
{
    if ids.len() == 0 {
        Some(Seq::empty())
    } else {
        match spec_way_points(nodes, ids.drop_last(), b, width, height) {
            None => None,
            Some(pts) => match spec_find_node(nodes, ids.last()) {
                None => None,
                Some(n) => Some(pts.push(spec_node_point(b, width, height, n))),
            },
        }
    }
}

/// The segment between two consecutive points of a way.
pub open spec fn spec_segment(p: (i64, i64), q: (i64, i64)) -> RoadSegment {
    RoadSegment { start_x: p.0, start_y: p.1, end_x: q.0, end_y: q.1 }
}

/// One segment per consecutive point pair: a list of `N` points yields
/// `N - 1` segments, and a list of one or zero points yields none.
pub open spec fn spec_segments_of(pts: Seq<(i64, i64)>) -> Seq<RoadSegment>
    decreases pts.len(),
{
    if pts.len() <= 1 {
        Seq::empty()
    } else {
        spec_segments_of(pts.drop_last()).push(
            spec_segment(pts[pts.len() - 2], pts.last()),
        )
    }
}

/// The segments of one way, or nothing on a dangling node reference.
pub open spec fn spec_way_segments(
    nodes: Seq<RawNode>,
    ids: Seq<i64>,
    b: Bounds,
    width: int,
    height: int,
) -> Option<Seq<RoadSegment>> {
    match spec_way_points(nodes, ids, b, width, height) {
        None => None,
        Some(pts) => Some(spec_segments_of(pts)),
    }
}

/// All ways' segments concatenated in way-list order, or nothing if any
/// way holds a dangling node reference.
pub open spec fn spec_ways_segments(
    nodes: Seq<RawNode>,
    ways: Seq<RawWayView>,
    b: Bounds,
    width: int,
    height: int,
) -> Option<Seq<RoadSegment>>
    decreases ways.len(),
{
    if ways.len() == 0 {
        Some(Seq::empty())
    } else {
        match spec_ways_segments(nodes, ways.drop_last(), b, width, height) {
            None => None,
            Some(init) => match spec_way_segments(
                nodes,
                ways.last().node_ids,
                b,
                width,
                height,
            ) {
                None => None,
                Some(segs) => Some(init + segs),
            },
        }
    }
}

/// A resolved point list has one point per node reference.
proof fn lemma_way_points_len(
    nodes: Seq<RawNode>,
    ids: Seq<i64>,
    b: Bounds,
    width: int,
    height: int,
)
    requires
        spec_way_points(nodes, ids, b, width, height) is Some,
    ensures
        spec_way_points(nodes, ids, b, width, height)->Some_0.len() == ids.len(),
    decreases ids.len(),
{
    if ids.len() == 0 {
    } else {
        lemma_way_points_len(nodes, ids.drop_last(), b, width, height);
    }
}

/// A list of `N` points yields `max(0, N - 1)` segments.
proof fn lemma_segments_of_len(pts: Seq<(i64, i64)>)
    ensures
        spec_segments_of(pts).len() == if pts.len() == 0 {
            0int
        } else {
            pts.len() - 1
        },
    decreases pts.len(),
{
    if pts.len() <= 1 {
    } else {
        lemma_segments_of_len(pts.drop_last());
    }
}

/// An unresolvable prefix makes the whole way unresolvable.
proof fn lemma_way_points_prefix_none(
    nodes: Seq<RawNode>,
    ids: Seq<i64>,
    b: Bounds,
    width: int,
    height: int,
    j: int,
)
    requires
        0 <= j <= ids.len(),
        spec_way_points(nodes, ids.take(j), b, width, height) is None,
    ensures
        spec_way_points(nodes, ids, b, width, height) is None,
    decreases ids.len(),
{
    if j == ids.len() {
        assert(ids.take(j) =~= ids);
    } else {
        assert(ids.drop_last().take(j) =~= ids.take(j));
        lemma_way_points_prefix_none(nodes, ids.drop_last(), b, width, height, j);
    }
}

/// One unresolvable way makes the whole extraction unresolvable.
proof fn lemma_ways_segments_none(
    nodes: Seq<RawNode>,
    ways: Seq<RawWayView>,
    b: Bounds,
    width: int,
    height: int,
    at: int,
)
    requires
        0 <= at < ways.len(),
        spec_way_segments(nodes, ways[at].node_ids, b, width, height) is None,
    ensures
        spec_ways_segments(nodes, ways, b, width, height) is None,
    decreases ways.len(),
{
    if at == ways.len() - 1 {
    } else {
        lemma_ways_segments_none(nodes, ways.drop_last(), b, width, height, at);
    }
}

/// A way is unresolvable exactly when one of its node references is
/// absent from the node mapping.
proof fn lemma_way_points_none_iff(
    nodes: Seq<RawNode>,
    ids: Seq<i64>,
    b: Bounds,
    width: int,
    height: int,
)
    ensures
        (spec_way_points(nodes, ids, b, width, height) is None) <==> (exists|j: int|
            0 <= j < ids.len() && (#[trigger] spec_find_node(nodes, ids[j])) is None),
    decreases ids.len(),
{
    if ids.len() == 0 {
    } else {
        let prefix = ids.drop_last();
        lemma_way_points_none_iff(nodes, prefix, b, width, height);
        if spec_way_points(nodes, ids, b, width, height) is None {
            if spec_way_points(nodes, prefix, b, width, height) is None {
                let j = choose|j: int|
                    0 <= j < prefix.len() && (#[trigger] spec_find_node(nodes, prefix[j])) is None;
                assert(ids[j] == prefix[j]);
                assert(spec_find_node(nodes, ids[j]) is None);
            } else {
                assert(spec_find_node(nodes, ids[ids.len() - 1]) is None);
            }
        }
        if exists|j: int|
            0 <= j < ids.len() && (#[trigger] spec_find_node(nodes, ids[j])) is None {
            let j = choose|j: int|
                0 <= j < ids.len() && (#[trigger] spec_find_node(nodes, ids[j])) is None;
            if j < ids.len() - 1 {
                assert(prefix[j] == ids[j]);
                assert(spec_way_points(nodes, prefix, b, width, height) is None);
            } else {
                assert(spec_find_node(nodes, ids.last()) is None);
            }
            assert(spec_way_points(nodes, ids, b, width, height) is None);
        }
    }
}

/// Extraction is unresolvable exactly when some way references a node
/// id absent from the node mapping: a dangling reference is an error,
/// never a silent skip, and without one extraction cannot fail this way.
pub proof fn lemma_dangling_iff(
    nodes: Seq<RawNode>,
    ways: Seq<RawWayView>,
    b: Bounds,
    width: int,
    height: int,
)
    ensures
        (spec_ways_segments(nodes, ways, b, width, height) is None) <==> (exists|i: int, j: int|
            0 <= i < ways.len() && 0 <= j < ways[i].node_ids.len() && (#[trigger] spec_find_node(
                nodes,
                ways[i].node_ids[j],
            )) is None),
    decreases ways.len(),
{
    if ways.len() == 0 {
    } else {
        let prefix = ways.drop_last();
        lemma_dangling_iff(nodes, prefix, b, width, height);
        lemma_way_points_none_iff(nodes, ways.last().node_ids, b, width, height);
        if spec_ways_segments(nodes, ways, b, width, height) is None {
            if spec_ways_segments(nodes, prefix, b, width, height) is None {
                let (i, j): (int, int) = choose|i: int, j: int|
                    0 <= i < prefix.len() && 0 <= j < prefix[i].node_ids.len() && (
                    #[trigger] spec_find_node(nodes, prefix[i].node_ids[j])) is None;
                assert(ways[i] == prefix[i]);
                assert(spec_find_node(nodes, ways[i].node_ids[j]) is None);
            } else {
                let j = choose|j: int|
                    0 <= j < ways.last().node_ids.len() && (#[trigger] spec_find_node(
                        nodes,
                        ways.last().node_ids[j],
                    )) is None;
                assert(spec_find_node(nodes, ways[ways.len() - 1].node_ids[j]) is None);
            }
        }
        if exists|i: int, j: int|
            0 <= i < ways.len() && 0 <= j < ways[i].node_ids.len() && (#[trigger] spec_find_node(
                nodes,
                ways[i].node_ids[j],
            )) is None {
            let (i, j): (int, int) = choose|i: int, j: int|
                0 <= i < ways.len() && 0 <= j < ways[i].node_ids.len() && (
                #[trigger] spec_find_node(nodes, ways[i].node_ids[j])) is None;
            if i < ways.len() - 1 {
                assert(prefix[i] == ways[i]);
                assert(spec_ways_segments(nodes, prefix, b, width, height) is None);
            } else {
                assert(spec_way_points(nodes, ways.last().node_ids, b, width, height) is None);
            }
            assert(spec_ways_segments(nodes, ways, b, width, height) is None);
        }
    }
}

/// A positive derived height means the latitude span is positive.
proof fn lemma_height_pos_lat_span(b: Bounds, width: int)
    requires
        b.min_lat <= b.max_lat,
        b.max_lon > b.min_lon,
        spec_target_height(b, width) >= 1,
    ensures
        b.max_lat > b.min_lat,
{
    if b.max_lat == b.min_lat {
        assert((b.max_lat - b.min_lat) * width == 0) by (nonlinear_arith)
            requires
                b.max_lat == b.min_lat,
        ;
        lemma_div_basics(b.max_lon - b.min_lon);
    }
}

/// Resolves and projects one way.  A way with `N >= 1` node references
/// yields exactly `N - 1` segments; a way with one node, or none, yields
/// no segments; a reference absent from the node mapping is an error,
/// never a silent skip.
pub fn way_segments(
    nodes: &Vec<RawNode>,
    way: &RawWay,
    b: &Bounds,
    target_width: u64,
    target_height: u64,
) -> (r: Result<Vec<RoadSegment>, PipelineError>)
    requires
        bounds_wf(*b),
        nodes_in_bounds(nodes@, *b),
        1 <= target_width <= MAX_TARGET_WIDTH,
        1 <= target_height <= 4_000_000_000_000_000,
        b.max_lon > b.min_lon,
        b.max_lat > b.min_lat,
    ensures
        match r {
            Ok(segs) => {
                &&& Some(segs@) == spec_way_segments(
                    nodes@,
                    way@.node_ids,
                    *b,
                    target_width as int,
                    target_height as int,
                )
                &&& segs@.len() == if way@.node_ids.len() == 0 {
                    0int
                } else {
                    way@.node_ids.len() - 1
                }
            },
            Err(e) => {
                &&& e == PipelineError::DanglingReference
                &&& spec_way_segments(
                    nodes@,
                    way@.node_ids,
                    *b,
                    target_width as int,
                    target_height as int,
                ) is None
            },
        },
{
    let ghost w = target_width as int;
    let ghost h = target_height as int;
    let n_ids = way.node_ids.len();
    let mut pts: Vec<(i64, i64)> = Vec::new();
    let mut j: usize = 0;
    proof {
        assert(way@.node_ids.take(0) =~= Seq::<i64>::empty());
    }
    while j < n_ids
        invariant
            0 <= j <= n_ids == way@.node_ids.len(),
            bounds_wf(*b),
            nodes_in_bounds(nodes@, *b),
            1 <= target_width <= MAX_TARGET_WIDTH,
            1 <= target_height <= 4_000_000_000_000_000,
            b.max_lon > b.min_lon,
            b.max_lat > b.min_lat,
            w == target_width as int,
            h == target_height as int,
            Some(pts@) == spec_way_points(nodes@, way@.node_ids.take(j as int), *b, w, h),
        decreases n_ids - j,
    {
        let id = way.node_ids[j];
        proof {
            assert(way@.node_ids.take(j as int + 1).drop_last() =~= way@.node_ids.take(
                j as int,
            ));
            assert(way@.node_ids.take(j as int + 1).last() == way@.node_ids[j as int]);
        }
        match find_node(nodes, id) {
            None => {
                proof {
                    lemma_way_points_prefix_none(
                        nodes@,
                        way@.node_ids,
                        *b,
                        w,
                        h,
                        j as int + 1,
                    );
                }
                return Err(PipelineError::DanglingReference);
            },
            Some(node) => {
                proof {
                    lemma_find_node_in(nodes@, id);
                }
                let p = project_point(b, target_width, target_height, node.lat, node.lon);
                pts.push(p);
            },
        }
        j = j + 1;
    }
    proof {
        assert(way@.node_ids.take(n_ids as int) =~= way@.node_ids);
        lemma_way_points_len(nodes@, way@.node_ids, *b, w, h);
    }

    let n_pts = pts.len();
    let mut segs: Vec<RoadSegment> = Vec::new();
    if n_pts == 0 {
        return Ok(segs);
    }
    let mut k: usize = 0;
    proof {
        assert(spec_segments_of(pts@.take(1)) =~= Seq::<RoadSegment>::empty());
    }
    while k + 1 < n_pts
        invariant
            0 <= k < n_pts == pts@.len(),
            segs@ == spec_segments_of(pts@.take(k as int + 1)),
        decreases n_pts - k,
    {
        let start = pts[k];
        let end = pts[k + 1];
        segs.push(RoadSegment { start_x: start.0, start_y: start.1, end_x: end.0, end_y: end.1 });
        proof {
            assert(pts@.take(k as int + 2).drop_last() =~= pts@.take(k as int + 1));
            assert(pts@.take(k as int + 2).last() == pts@[k as int + 1]);
            assert(pts@.take(k as int + 2)[k as int] == pts@[k as int]);
        }
        k = k + 1;
    }
    proof {
        assert(pts@.take(k as int + 1) =~= pts@);
        lemma_segments_of_len(pts@);
    }
    Ok(segs)
}

/// Extracts the whole graph: its bounds and every way's segments, in
/// way-list order and point order within each way.  Fails with
/// `EmptyGraph` on a graph without nodes, `DegenerateBounds` when the
/// longitude span is zero or the derived height would not be positive,
/// and `DanglingReference` when a way references an absent node.
pub fn extract(graph: &RoadGraph, target_width: u64) -> (r: Result<
    (Bounds, Vec<RoadSegment>),
    PipelineError,
>)
    requires
        coords_bounded(graph@.nodes),
        1 <= target_width <= MAX_TARGET_WIDTH,
    ensures
        match r {
            Ok((b, segs)) => {
                &&& graph@.nodes.len() > 0
                &&& b == spec_bounds(graph@.nodes)
                &&& b.max_lon > b.min_lon
                &&& spec_target_height(b, target_width as int) >= 1
                &&& Some(segs@) == spec_ways_segments(
                    graph@.nodes,
                    graph@.ways,
                    b,
                    target_width as int,
                    spec_target_height(b, target_width as int),
                )
            },
            Err(e) => match e {
                PipelineError::EmptyGraph => graph@.nodes.len() == 0,
                PipelineError::DegenerateBounds => {
                    &&& graph@.nodes.len() > 0
                    &&& {
                        let b = spec_bounds(graph@.nodes);
                        b.max_lon == b.min_lon || spec_target_height(
                            b,
                            target_width as int,
                        ) <= 0
                    }
                },
                PipelineError::DanglingReference => {
                    &&& graph@.nodes.len() > 0
                    &&& spec_bounds(graph@.nodes).max_lon > spec_bounds(graph@.nodes).min_lon
                    &&& spec_target_height(spec_bounds(graph@.nodes), target_width as int) >= 1
                    &&& spec_ways_segments(
                        graph@.nodes,
                        graph@.ways,
                        spec_bounds(graph@.nodes),
                        target_width as int,
                        spec_target_height(spec_bounds(graph@.nodes), target_width as int),
                    ) is None
                },
                _ => false,
            },
        },
{
    let b = match compute_bounds(&graph.nodes) {
        Ok(b) => b,
        Err(e) => { return Err(e) },
    };
    proof {
        lemma_bounds_wf(graph@.nodes);
        lemma_bounds_contain(graph@.nodes);
    }
    let target_height = match make_transform(&b, target_width) {
        Ok(h) => h,
        Err(e) => { return Err(e) },
    };
    proof {
        lemma_height_pos_lat_span(b, target_width as int);
    }

    let ghost w = target_width as int;
    let ghost h = target_height as int;
    let ways = &graph.ways;
    let n_ways = ways.len();
    let mut segs: Vec<RoadSegment> = Vec::new();
    let mut i: usize = 0;
    proof {
        assert(graph@.ways.take(0) =~= Seq::<RawWayView>::empty());
    }
    while i < n_ways
        invariant
            0 <= i <= n_ways == graph@.ways.len(),
            ways == &graph.ways,
            graph@.nodes.len() > 0,
            b == spec_bounds(graph@.nodes),
            target_height as int == spec_target_height(b, target_width as int),
            bounds_wf(b),
            nodes_in_bounds(graph@.nodes, b),
            1 <= target_width <= MAX_TARGET_WIDTH,
            1 <= target_height <= 4_000_000_000_000_000,
            b.max_lon > b.min_lon,
            b.max_lat > b.min_lat,
            w == target_width as int,
            h == target_height as int,
            Some(segs@) == spec_ways_segments(graph@.nodes, graph@.ways.take(i as int), b, w, h),
        decreases n_ways - i,
    {
        proof {
            assert(graph@.ways.take(i as int + 1).drop_last() =~= graph@.ways.take(i as int));
            assert(graph@.ways.take(i as int + 1).last() == graph@.ways[i as int]);
            assert(graph@.ways[i as int] == graph.ways@[i as int]@);
        }
        let mut way_segs = match way_segments(&graph.nodes, &ways[i], &b, target_width, target_height) {
            Ok(s) => s,
            Err(e) => {
                proof {
                    lemma_ways_segments_none(graph@.nodes, graph@.ways, b, w, h, i as int);
                }
                return Err(e);
            },
        };
        segs.append(&mut way_segs);
        i = i + 1;
    }
    proof {
        assert(graph@.ways.take(n_ways as int) =~= graph@.ways);
    }
    Ok((b, segs))
}

/// Extraction is deterministic: its contract pins one result, so any two
/// results for the same graph and the same target width are identical.
pub proof fn lemma_extract_deterministic(
    nodes: Seq<RawNode>,
    ways: Seq<RawWayView>,
    b: Bounds,
    width: int,
    height: int,
    r1: Seq<RoadSegment>,
    r2: Seq<RoadSegment>,
)
    requires
        Some(r1) == spec_ways_segments(nodes, ways, b, width, height),
        Some(r2) == spec_ways_segments(nodes, ways, b, width, height),
    ensures
        r1 == r2,
{
}

} // verus!
