//! The raw street graph for one area: a node mapping plus ways in fetch
//! order, and its construction from the element list a graph fetch returns.

use vstd::prelude::*;

verus! {

/// One point of the street graph.  Coordinates are fixed-point latitude and
/// longitude: degrees scaled by ten million, the resolution of the upstream
/// data, so that all downstream geometry is exact integer arithmetic.
#[derive(Clone, Copy, PartialEq, Eq, Structural, Debug)]
pub struct RawNode {
    pub id: i64,
    pub lat: i64,
    pub lon: i64,
}

/// One way: an ordered list of references into the node mapping.
#[derive(Clone, Debug)]
pub struct RawWay {
    pub id: i64,
    pub node_ids: Vec<i64>,
}

/// The mathematical value of a `RawWay`.
pub struct RawWayView {
    pub id: i64,
    pub node_ids: Seq<i64>,
}

impl View for RawWay {
    type V = RawWayView;

    open spec fn view(&self) -> RawWayView {
        RawWayView { id: self.id, node_ids: self.node_ids@ }
    }
}

/// The raw street graph: the cache unit for one area.
#[derive(Clone, Debug)]
pub struct RoadGraph {
    pub nodes: Vec<RawNode>,
    pub ways: Vec<RawWay>,
}

/// The mathematical value of a `RoadGraph`.
pub struct RoadGraphView {
    pub nodes: Seq<RawNode>,
    pub ways: Seq<RawWayView>,
}

impl View for RoadGraph {
    type V = RoadGraphView;

    open spec fn view(&self) -> RoadGraphView {
        RoadGraphView {
            nodes: self.nodes@,
            ways: self.ways@.map_values(|w: RawWay| w@),
        }
    }
}

/// One element of a fetch response, already reduced to plain values:
/// a node with coordinates, a way with its node references, or anything
/// else, which the partition ignores.
#[derive(Clone, Debug)]
pub enum RawElement {
    Node { id: i64, lat: i64, lon: i64 },
    Way { id: i64, node_refs: Vec<i64> },
    Other,
}

/// The mathematical value of a `RawElement`.
pub enum RawElementView {
    Node { id: i64, lat: i64, lon: i64 },
    Way { id: i64, node_refs: Seq<i64> },
    Other,
}

impl View for RawElement {
    type V = RawElementView;

    open spec fn view(&self) -> RawElementView {
        match self {
            RawElement::Node { id, lat, lon } => RawElementView::Node {
                id: *id,
                lat: *lat,
                lon: *lon,
            },
            RawElement::Way { id, node_refs } => RawElementView::Way {
                id: *id,
                node_refs: node_refs@,
            },
            RawElement::Other => RawElementView::Other,
        }
    }
}

/// The view of an element list.
pub open spec fn elems_view(elements: Seq<RawElement>) -> Seq<RawElementView> {
    elements.map_values(|e: RawElement| e@)
}

/// No two nodes share an id: the node list is a mapping.
pub open spec fn nodes_unique(nodes: Seq<RawNode>) -> bool {
    forall|i: int, j: int| 0 <= i < j < nodes.len() ==> nodes[i].id != nodes[j].id
}

/// The first node carrying `id`, if any: the node mapping, looked up.
pub open spec fn spec_find_node(nodes: Seq<RawNode>, id: i64) -> Option<RawNode>
    decreases nodes.len(),
{
    if nodes.len() == 0 {
        None
    } else if nodes[0].id == id {
        Some(nodes[0])
    } else {
        spec_find_node(nodes.drop_first(), id)
    }
}

/// Mapping update: replace the node that carries `n.id`, or append `n`.
pub open spec fn spec_insert_node(nodes: Seq<RawNode>, n: RawNode) -> Seq<RawNode>
    decreases nodes.len(),
{
    if nodes.len() == 0 {
        seq![n]
    } else if nodes[0].id == n.id {
        seq![n] + nodes.drop_first()
    } else {
        seq![nodes[0]] + spec_insert_node(nodes.drop_first(), n)
    }
}

/// The node mapping built by folding every node element, in element order;
/// a repeated id keeps the later coordinates, as a mapping insert does.
pub open spec fn spec_build_nodes(elems: Seq<RawElementView>) -> Seq<RawNode>
    decreases elems.len(),
{
    if elems.len() == 0 {
        Seq::empty()
    } else {
        let init = spec_build_nodes(elems.drop_last());
        match elems.last() {
            RawElementView::Node { id, lat, lon } => spec_insert_node(
                init,
                RawNode { id, lat, lon },
            ),
            _ => init,
        }
    }
}

/// The way list: every way element, in element order.
pub open spec fn spec_build_ways(elems: Seq<RawElementView>) -> Seq<RawWayView>
    decreases elems.len(),
{
    if elems.len() == 0 {
        Seq::empty()
    } else {
        let init = spec_build_ways(elems.drop_last());
        match elems.last() {
            RawElementView::Way { id, node_refs } => init.push(
                RawWayView { id, node_ids: node_refs },
            ),
            _ => init,
        }
    }
}

/// When the first match for `n.id` sits at `at`, inserting `n` updates
/// exactly that slot.
proof fn lemma_insert_node_at(nodes: Seq<RawNode>, n: RawNode, at: int)
    requires
        0 <= at < nodes.len(),
        nodes[at].id == n.id,
        forall|j: int| 0 <= j < at ==> nodes[j].id != n.id,
    ensures
        spec_insert_node(nodes, n) == nodes.update(at, n),
    decreases nodes.len(),
{
    if at == 0 {
        assert(spec_insert_node(nodes, n) =~= nodes.update(0, n));
    } else {
        lemma_insert_node_at(nodes.drop_first(), n, at - 1);
        assert(seq![nodes[0]] + nodes.drop_first().update(at - 1, n) =~= nodes.update(at, n));
    }
}

/// When no node carries `n.id`, inserting `n` appends it.
proof fn lemma_insert_node_absent(nodes: Seq<RawNode>, n: RawNode)
    requires
        forall|j: int| 0 <= j < nodes.len() ==> nodes[j].id != n.id,
    ensures
        spec_insert_node(nodes, n) == nodes.push(n),
    decreases nodes.len(),
{
    if nodes.len() == 0 {
        assert(spec_insert_node(nodes, n) =~= nodes.push(n));
    } else {
        lemma_insert_node_absent(nodes.drop_first(), n);
        assert(seq![nodes[0]] + nodes.drop_first().push(n) =~= nodes.push(n));
    }
}

/// A successful lookup returns a node of the mapping, carrying the id
/// that was looked up.
pub proof fn lemma_find_node_in(nodes: Seq<RawNode>, id: i64)
    requires
        spec_find_node(nodes, id) is Some,
    ensures
        spec_find_node(nodes, id)->Some_0.id == id,
        exists|i: int|
            0 <= i < nodes.len() && nodes[i] == spec_find_node(nodes, id)->Some_0,
    decreases nodes.len(),
{
    if nodes.len() == 0 {
    } else if nodes[0].id == id {
        assert(nodes[0] == spec_find_node(nodes, id)->Some_0);
    } else {
        lemma_find_node_in(nodes.drop_first(), id);
        let found = spec_find_node(nodes, id)->Some_0;
        let w = choose|i: int|
            0 <= i < nodes.drop_first().len() && nodes.drop_first()[i] == found;
        assert(nodes[w + 1] == found);
    }
}

/// Looks `id` up in the node mapping: the first node that carries it.
pub fn find_node(nodes: &Vec<RawNode>, id: i64) -> (r: Option<RawNode>)
    ensures
        r == spec_find_node(nodes@, id),
{
    let n = nodes.len();
    let mut i: usize = 0;
    proof {
        assert(nodes@.skip(0) =~= nodes@);
    }
    while i < n
        invariant
            0 <= i <= n == nodes@.len(),
            spec_find_node(nodes@, id) == spec_find_node(nodes@.skip(i as int), id),
        decreases n - i,
    {
        if nodes[i].id == id {
            let found = nodes[i];
            proof {
                assert(nodes@.skip(i as int)[0] == nodes@[i as int]);
            }
            return Some(found);
        }
        proof {
            assert(nodes@.skip(i as int).drop_first() =~= nodes@.skip(i as int + 1));
        }
        i = i + 1;
    }
    proof {
        assert(nodes@.skip(n as int) =~= Seq::<RawNode>::empty());
    }
    None
}

/// Inserts `n` into the node mapping: replaces the node that already
/// carries `n.id`, or appends.  A mapping stays a mapping.
fn insert_node(nodes: &mut Vec<RawNode>, n: RawNode)
    ensures
        final(nodes)@ == spec_insert_node(old(nodes)@, n),
        nodes_unique(old(nodes)@) ==> nodes_unique(final(nodes)@),
{
    let len = nodes.len();
    let mut i: usize = 0;
    while i < len
        invariant
            nodes@ == old(nodes)@,
            0 <= i <= len == nodes@.len(),
            forall|j: int| 0 <= j < i ==> nodes@[j].id != n.id,
        decreases len - i,
    {
        if nodes[i].id == n.id {
            nodes.set(i, n);
            proof {
                lemma_insert_node_at(old(nodes)@, n, i as int);
            }
            return ;
        }
        i = i + 1;
    }
    nodes.push(n);
    proof {
        lemma_insert_node_absent(old(nodes)@, n);
    }
}

/// Partitions a fetch response into the raw street graph: node elements
/// populate the node mapping, way elements the way list, anything else is
/// skipped.  The node mapping never holds two nodes with one id.
pub fn build_graph(elements: &Vec<RawElement>) -> (g: RoadGraph)
    ensures
        g@.nodes == spec_build_nodes(elems_view(elements@)),
        g@.ways == spec_build_ways(elems_view(elements@)),
        nodes_unique(g@.nodes),
{
    let ghost ev = elems_view(elements@);
    let mut nodes: Vec<RawNode> = Vec::new();
    let mut ways: Vec<RawWay> = Vec::new();
    let n = elements.len();
    let mut i: usize = 0;
    while i < n
        invariant
            0 <= i <= n == elements@.len(),
            ev == elems_view(elements@),
            nodes@ == spec_build_nodes(ev.take(i as int)),
            ways@.map_values(|w: RawWay| w@) == spec_build_ways(ev.take(i as int)),
            nodes_unique(nodes@),
        decreases n - i,
    {
        proof {
            assert(ev.take(i as int + 1).drop_last() =~= ev.take(i as int));
            assert(ev.take(i as int + 1).last() == ev[i as int]);
            assert(ev[i as int] == elements@[i as int]@);
        }
        match &elements[i] {
            RawElement::Node { id, lat, lon } => {
                insert_node(&mut nodes, RawNode { id: *id, lat: *lat, lon: *lon });
            },
            RawElement::Way { id, node_refs } => {
                let refs = node_refs.clone();
                proof {
                    assert(refs@ =~= node_refs@);
                }
                ways.push(RawWay { id: *id, node_ids: refs });
                proof {
                    assert(ways@.map_values(|w: RawWay| w@) =~= spec_build_ways(
                        ev.take(i as int + 1),
                    ));
                }
            },
            RawElement::Other => {},
        }
        i = i + 1;
    }
    proof {
        assert(ev.take(n as int) =~= ev);
    }
    RoadGraph { nodes, ways }
}

} // verus!
