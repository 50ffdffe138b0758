use a_star_wallpaper::extract::{extract, way_segments, RoadSegment};
use a_star_wallpaper::graph::{build_graph, find_node, RawElement, RawNode, RawWay, RoadGraph};
use a_star_wallpaper::project::{compute_bounds, flip_row, make_transform, project_point, Bounds};
use a_star_wallpaper::PipelineError;

// Fixed-point coordinates: degrees scaled by ten million.
const DEG: i64 = 10_000_000;

fn node(id: i64, lat: i64, lon: i64) -> RawNode {
    RawNode { id, lat, lon }
}

fn sample_graph() -> RoadGraph {
    RoadGraph {
        nodes: vec![
            node(1, 0, 0),
            node(2, DEG, 2 * DEG),
            node(3, DEG / 2, DEG),
        ],
        ways: vec![RawWay { id: 50, node_ids: vec![1, 3, 2] }],
    }
}

#[test]
fn bounds_of_empty_graph_fail() {
    let err = compute_bounds(&Vec::new()).unwrap_err();
    assert_eq!(err, PipelineError::EmptyGraph);
}

#[test]
fn bounds_are_ordered_and_tight() {
    let nodes = vec![node(1, 5, -3), node(2, -7, 9), node(3, 2, 2)];
    let b = compute_bounds(&nodes).unwrap();
    assert_eq!(b, Bounds { min_lat: -7, min_lon: -3, max_lat: 5, max_lon: 9 });
    assert!(b.min_lat <= b.max_lat);
    assert!(b.min_lon <= b.max_lon);
}

#[test]
fn height_preserves_aspect_ratio() {
    let b = Bounds { min_lat: 0, min_lon: 0, max_lat: DEG, max_lon: 2 * DEG };
    let h = make_transform(&b, 1920).unwrap();
    assert_eq!(h, 960);
}

#[test]
fn projection_centers_the_midpoint() {
    let b = Bounds { min_lat: 0, min_lon: 0, max_lat: DEG, max_lon: 2 * DEG };
    let p = project_point(&b, 1920, 960, DEG / 2, DEG);
    assert_eq!(p, (0, 0));
}

#[test]
fn projection_corners() {
    let b = Bounds { min_lat: 0, min_lon: 0, max_lat: DEG, max_lon: 2 * DEG };
    assert_eq!(project_point(&b, 1920, 960, 0, 0), (-960, -480));
    assert_eq!(project_point(&b, 1920, 960, DEG, 2 * DEG), (960, 480));
}

#[test]
fn flipping_a_row_mirrors_it() {
    assert_eq!(flip_row(960, 0), 959);
    assert_eq!(flip_row(960, 959), 0);
    assert_eq!(flip_row(960, 480), 479);
}

#[test]
fn zero_longitude_span_is_degenerate() {
    let b = Bounds { min_lat: 0, min_lon: 7, max_lat: DEG, max_lon: 7 };
    let err = make_transform(&b, 1920).unwrap_err();
    assert_eq!(err, PipelineError::DegenerateBounds);
}

#[test]
fn zero_latitude_span_is_degenerate() {
    let b = Bounds { min_lat: 4, min_lon: 0, max_lat: 4, max_lon: DEG };
    let err = make_transform(&b, 1920).unwrap_err();
    assert_eq!(err, PipelineError::DegenerateBounds);
}

#[test]
fn build_graph_partitions_elements() {
    let elements = vec![
        RawElement::Node { id: 1, lat: 10, lon: 20 },
        RawElement::Other,
        RawElement::Way { id: 9, node_refs: vec![1, 2] },
        RawElement::Node { id: 2, lat: 30, lon: 40 },
    ];
    let g = build_graph(&elements);
    assert_eq!(g.nodes.len(), 2);
    assert_eq!(g.nodes[0], node(1, 10, 20));
    assert_eq!(g.nodes[1], node(2, 30, 40));
    assert_eq!(g.ways.len(), 1);
    assert_eq!(g.ways[0].id, 9);
    assert_eq!(g.ways[0].node_ids, vec![1, 2]);
}

#[test]
fn build_graph_keeps_last_coordinates_for_repeated_id() {
    let elements = vec![
        RawElement::Node { id: 1, lat: 10, lon: 20 },
        RawElement::Node { id: 1, lat: 11, lon: 21 },
    ];
    let g = build_graph(&elements);
    assert_eq!(g.nodes.len(), 1);
    assert_eq!(g.nodes[0], node(1, 11, 21));
}

#[test]
fn find_node_resolves_ids() {
    let nodes = vec![node(1, 10, 20), node(2, 30, 40)];
    assert_eq!(find_node(&nodes, 2), Some(node(2, 30, 40)));
    assert_eq!(find_node(&nodes, 999), None);
}

#[test]
fn extraction_projects_each_way_in_order() {
    let graph = sample_graph();
    let (b, segs) = extract(&graph, 1920).unwrap();
    assert_eq!(b, Bounds { min_lat: 0, min_lon: 0, max_lat: DEG, max_lon: 2 * DEG });
    assert_eq!(
        segs,
        vec![
            RoadSegment { start_x: -960, start_y: -480, end_x: 0, end_y: 0 },
            RoadSegment { start_x: 0, start_y: 0, end_x: 960, end_y: 480 },
        ]
    );
}

#[test]
fn extraction_is_deterministic() {
    let graph = sample_graph();
    let (b1, segs1) = extract(&graph, 1920).unwrap();
    let (b2, segs2) = extract(&graph, 1920).unwrap();
    assert_eq!(b1, b2);
    assert_eq!(segs1, segs2);
}

#[test]
fn way_with_n_nodes_yields_n_minus_one_segments() {
    let graph = sample_graph();
    let b = compute_bounds(&graph.nodes).unwrap();
    let h = make_transform(&b, 1920).unwrap();

    let three = RawWay { id: 1, node_ids: vec![1, 3, 2] };
    assert_eq!(way_segments(&graph.nodes, &three, &b, 1920, h).unwrap().len(), 2);

    let one = RawWay { id: 2, node_ids: vec![3] };
    assert_eq!(way_segments(&graph.nodes, &one, &b, 1920, h).unwrap().len(), 0);

    let none = RawWay { id: 3, node_ids: Vec::new() };
    assert_eq!(way_segments(&graph.nodes, &none, &b, 1920, h).unwrap().len(), 0);
}

#[test]
fn empty_graph_extraction_fails() {
    let graph = RoadGraph { nodes: Vec::new(), ways: Vec::new() };
    let err = extract(&graph, 1920).unwrap_err();
    assert_eq!(err, PipelineError::EmptyGraph);
}

#[test]
fn dangling_reference_is_an_error_not_a_skip() {
    let mut graph = sample_graph();
    graph.ways.push(RawWay { id: 51, node_ids: vec![1, 999] });
    let err = extract(&graph, 1920).unwrap_err();
    assert_eq!(err, PipelineError::DanglingReference);
}

#[test]
fn single_node_graph_has_degenerate_bounds() {
    let graph = RoadGraph { nodes: vec![node(1, 5, 5)], ways: Vec::new() };
    let err = extract(&graph, 1920).unwrap_err();
    assert_eq!(err, PipelineError::DegenerateBounds);
}
