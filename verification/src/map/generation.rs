//! The making of a level: rooms within the regions of a partition of the
//! map, corridors between rooms that lie near each other, and doors where
//! a corridor meets a wall.

use vstd::prelude::*;
use super::boxextends::{
    cut_point, cuts_within, edge_vicinity_boxes, halves, lemma_halves_cover,
    make_edge_vicinity_boxes, random_subbox, shrink_allowance, split_box, subbox,
    too_small_to_split, was_cut, BoxExtends, LEAST_MARGIN, MODERATE,
};
use super::room::{EntityContainerView, EntityGraph, EntityGraphView, Room};
use super::utils::{down, fits_i32, left, right, up, Axis, Coordinate};
use super::{walkable_on, GameMap};
use crate::resources::id::TileID;
use crate::resources::{ResourceManager, DEFAULT_TILEID, FLOOR_TILEID, WALL_TILEID};
use crate::spawning::flood_fill_spawn_tables;

verus! {

/// The rooms of a level and the pairs of rooms that are joined, by their
/// indices.
pub struct RoomGraph {
    pub rooms: Vec<Room>,
    pub edges: Vec<(usize, usize)>,
}

/// The extents of `rooms`, in order.
pub open spec fn extents_of(rooms: Seq<Room>) -> Seq<BoxExtends> {
    Seq::new(rooms.len(), |i: int| rooms[i].extends)
}

/// How many parts a graph falls into: the number that
/// `petgraph::algo::connected_components` gives for the undirected graph
/// with `nodes` nodes and an edge from `sources[i]` to `targets[i]` for every
/// `i`.
pub uninterp spec fn component_count(nodes: nat, sources: Seq<usize>, targets: Seq<usize>) -> nat;

/// Builds the undirected graph of `petgraph` with `nodes` nodes and the
/// edges from `sources[i]` to `targets[i]`, and counts its parts with
/// `petgraph::algo::connected_components`. The contract names the count. The
/// ends of every edge are nodes, without which `Graph::add_edge` panics.
#[verifier::external_body]
fn connected_components(nodes: usize, sources: &Vec<usize>, targets: &Vec<usize>) -> (count: usize)
    requires
        sources@.len() == targets@.len(),
        forall|i: int| 0 <= i < sources@.len() ==> sources@[i] < nodes && targets@[i] < nodes,
    ensures
        count == component_count(nodes as nat, sources@, targets@),
{
    let mut graph = petgraph::Graph::<(), (), petgraph::Undirected, usize>::default();
    for _ in 0..nodes {
        graph.add_node(());
    }
    for i in 0..sources.len() {
        graph.add_edge(sources[i].into(), targets[i].into(), ());
    }
    petgraph::algo::connected_components(&graph)
}

/// The rooms at the other ends of the edges that `node` has, in the order
/// of the edges. An edge from a room to itself counts once.
pub open spec fn neighbors_of(edges: Seq<(usize, usize)>, node: usize) -> Seq<usize>
    decreases edges.len(),
{
    if edges.len() == 0 {
        Seq::empty()
    } else if edges.last().0 == node {
        neighbors_of(edges.drop_last(), node).push(edges.last().1)
    } else if edges.last().1 == node {
        neighbors_of(edges.drop_last(), node).push(edges.last().0)
    } else {
        neighbors_of(edges.drop_last(), node)
    }
}

/// Whether an edge joins `a` and `b`.
pub open spec fn is_joined(edges: Seq<(usize, usize)>, a: usize, b: usize) -> bool {
    exists|k: int| 0 <= k < edges.len() && (#[trigger] edges[k] == (a, b) || edges[k] == (b, a))
}

impl RoomGraph {
    /// Whether both ends of every edge are rooms.
    pub open spec fn wf(&self) -> bool {
        forall|i: int|
            0 <= i < self.edges@.len() ==> (#[trigger] self.edges@[i]).0 < self.rooms@.len()
                && self.edges@[i].1 < self.rooms@.len()
    }

    /// No rooms.
    pub fn new() -> (graph: RoomGraph)
        ensures
            graph.rooms@.len() == 0,
            graph.edges@.len() == 0,
            graph.wf(),
    {
        RoomGraph { rooms: Vec::new(), edges: Vec::new() }
    }

    /// The rooms that are joined to `node`, in the order of the edges. A
    /// room that is joined to it twice is there twice.
    pub fn neighbors(&self, node: usize) -> (found: Vec<usize>)
        requires
            self.wf(),
        ensures
            found@ == neighbors_of(self.edges@, node),
            forall|i: int| 0 <= i < found@.len() ==> #[trigger] found@[i] < self.rooms@.len(),
            forall|i: int|
                0 <= i < found@.len() ==> is_joined(self.edges@, node, #[trigger] found@[i]),
    {
        let mut found: Vec<usize> = Vec::new();
        let mut k: usize = 0;
        assert(self.edges@.take(0) =~= Seq::<(usize, usize)>::empty());
        while k < self.edges.len()
            invariant
                self.wf(),
                k <= self.edges@.len(),
                found@ == neighbors_of(self.edges@.take(k as int), node),
                forall|i: int| 0 <= i < found@.len() ==> #[trigger] found@[i] < self.rooms@.len(),
                forall|i: int|
                    0 <= i < found@.len() ==> is_joined(self.edges@, node, #[trigger] found@[i]),
            decreases self.edges@.len() - k,
        {
            let (a, b) = self.edges[k];
            let ghost before = found@;
            assert(self.edges@.take(k as int + 1).drop_last() =~= self.edges@.take(k as int));
            assert(self.edges@.take(k as int + 1).last() == self.edges@[k as int]);
            if a == node {
                found.push(b);
                assert(self.edges@[k as int] == (node, b));
            } else if b == node {
                found.push(a);
                assert(self.edges@[k as int] == (a, node));
            }
            proof {
                assert forall|i: int| 0 <= i < found@.len() implies is_joined(
                    self.edges@,
                    node,
                    #[trigger] found@[i],
                ) by {
                    if i < before.len() {
                        assert(found@[i] == before[i]);
                    } else {
                        assert(self.edges@[k as int] == (node, found@[i]) || self.edges@[k as int]
                            == (found@[i], node));
                    }
                }
            }
            k = k + 1;
        }
        assert(self.edges@.take(k as int) =~= self.edges@);
        found
    }

    /// Into how many parts the graph falls.
    pub fn parts(&self) -> (count: usize)
        requires
            self.wf(),
        ensures
            count == component_count(
                self.rooms@.len(),
                Seq::new(self.edges@.len(), |i: int| self.edges@[i].0),
                Seq::new(self.edges@.len(), |i: int| self.edges@[i].1),
            ),
    {
        let mut sources: Vec<usize> = Vec::new();
        let mut targets: Vec<usize> = Vec::new();
        let mut i: usize = 0;
        while i < self.edges.len()
            invariant
                self.wf(),
                i <= self.edges@.len(),
                sources@ == Seq::new(i as nat, |k: int| self.edges@[k].0),
                targets@ == Seq::new(i as nat, |k: int| self.edges@[k].1),
            decreases self.edges@.len() - i,
        {
            let (a, b) = self.edges[i];
            sources.push(a);
            targets.push(b);
            assert(sources@ =~= Seq::new((i + 1) as nat, |k: int| self.edges@[k].0));
            assert(targets@ =~= Seq::new((i + 1) as nat, |k: int| self.edges@[k].1));
            i = i + 1;
        }
        connected_components(self.rooms.len(), &sources, &targets)
    }
}

fn copy_rooms(rooms: &Vec<Room>) -> (copy: Vec<Room>)
    ensures
        copy@.len() == rooms@.len(),
        forall|i: int|
            0 <= i < copy@.len() ==> (#[trigger] copy@[i]).extends == rooms@[i].extends
                && copy@[i].door_locations@ == rooms@[i].door_locations@ && copy@[i].template
                == rooms@[i].template && copy@[i].room_depth == rooms@[i].room_depth
                && copy@[i].extra_spawn == rooms@[i].extra_spawn,
{
    let mut copy: Vec<Room> = Vec::new();
    let mut i: usize = 0;
    while i < rooms.len()
        invariant
            i <= rooms@.len(),
            copy@.len() == i,
            forall|k: int|
                0 <= k < i ==> (#[trigger] copy@[k]).extends == rooms@[k].extends
                    && copy@[k].door_locations@ == rooms@[k].door_locations@ && copy@[k].template
                    == rooms@[k].template && copy@[k].room_depth == rooms@[k].room_depth
                    && copy@[k].extra_spawn == rooms@[k].extra_spawn,
        decreases rooms@.len() - i,
    {
        copy.push(rooms[i].duplicate());
        i = i + 1;
    }
    copy
}

/// Whether `leaves` lists the regions of `tree` that are not split, each
/// once and in the order of their indices.
pub open spec fn is_leaf_list(tree: EntityGraphView, leaves: Seq<usize>) -> bool {
    &&& forall|i: int| 0 <= i < leaves.len() ==> tree.is_leaf(#[trigger] leaves[i] as int)
    &&& forall|i: int, j: int| 0 <= i < j < leaves.len() ==> leaves[i] < leaves[j]
    &&& forall|node: int| tree.is_leaf(node) ==> leaves.contains(node as usize)
}

/// Whether `room` is a room that may be made within the region `area`: the
/// region shrunk by chance along both axes as far as `min_side_length`
/// allows, and placed by chance within the room that this frees; the region
/// itself, where its coordinates or `min_side_length` are too large for
/// that.
pub open spec fn is_room_within(area: BoxExtends, min_side_length: i32, room: BoxExtends) -> bool {
    if area.spec_moderate() && 0 <= min_side_length <= MODERATE {
        exists|shrink_x: i32, shrink_y: i32, offset_x: i32, offset_y: i32|
            0 <= offset_x <= shrink_x && 0 <= offset_y <= shrink_y && shrink_x <= shrink_allowance(
                area.width(),
                min_side_length as int,
            ) && shrink_y <= shrink_allowance(area.height(), min_side_length as int) && room
                == #[trigger] subbox(area, shrink_x, shrink_y, offset_x, offset_y)
    } else {
        room == area
    }
}

/// The regions of `bsp` that are not split, in the order of their indices.
pub fn leaves_from_bsp(bsp: &EntityGraph) -> (leaves: Vec<usize>)
    requires
        bsp@.wf(),
    ensures
        is_leaf_list(bsp@, leaves@),
{
    let mut leaves: Vec<usize> = Vec::new();
    let mut node: usize = 0;
    let count = bsp.node_count();
    while node < count
        invariant
            bsp@.wf(),
            count == bsp@.nodes.len(),
            node <= count,
            forall|i: int|
                0 <= i < leaves@.len() ==> bsp@.is_leaf(#[trigger] leaves@[i] as int) && leaves@[i]
                    < node,
            forall|i: int, j: int| 0 <= i < j < leaves@.len() ==> leaves@[i] < leaves@[j],
            forall|n: int| 0 <= n < node && bsp@.is_leaf(n) ==> leaves@.contains(n as usize),
        decreases count - node,
    {
        let ghost before = leaves@;
        if bsp.is_leaf(node) {
            leaves.push(node);
            assert(leaves@[before.len() as int] == node);
        }
        proof {
            assert forall|n: int| 0 <= n < node + 1 && bsp@.is_leaf(n) implies leaves@.contains(
                n as usize,
            ) by {
                if n < node {
                    assert(before.contains(n as usize));
                    let k = choose|k: int| 0 <= k < before.len() && before[k] == n as usize;
                    assert(leaves@[k] == n as usize);
                }
            }
        }
        node = node + 1;
    }
    leaves
}

/// A room within every region of `bsp` that is not split: the region,
/// shrunk and placed by chance, with sides of `min_side_length` where the
/// region allows. The rooms are not joined.
pub fn make_rooms_from_bsp(bsp: &EntityGraph, min_side_length: i32) -> (graph: RoomGraph)
    requires
        bsp@.wf(),
    ensures
        graph.wf(),
        graph.edges@.len() == 0,
        forall|i: int|
            0 <= i < graph.rooms@.len() ==> (#[trigger] graph.rooms@[i]).door_locations@.len() == 0
                && graph.rooms@[i].template is None && graph.rooms@[i].extra_spawn is None
                && graph.rooms@[i].room_depth is None,
        exists|leaves: Seq<usize>| #[trigger]
            is_leaf_list(bsp@, leaves) && graph.rooms@.len() == leaves.len() && forall|i: int|
                0 <= i < leaves.len() ==> is_room_within(
                    bsp@.nodes[leaves[i] as int].extends,
                    min_side_length,
                    (#[trigger] graph.rooms@[i]).extends,
                ),
{
    let bsp_leaves = leaves_from_bsp(bsp);
    let mut graph = RoomGraph::new();
    let mut i: usize = 0;
    while i < bsp_leaves.len()
        invariant
            bsp@.wf(),
            i <= bsp_leaves@.len(),
            is_leaf_list(bsp@, bsp_leaves@),
            graph.edges@.len() == 0,
            graph.rooms@.len() == i,
            forall|k: int|
                0 <= k < graph.rooms@.len() ==> (#[trigger] graph.rooms@[k]).door_locations@.len()
                    == 0 && graph.rooms@[k].template is None && graph.rooms@[k].extra_spawn
                    is None && graph.rooms@[k].room_depth is None,
            forall|k: int|
                0 <= k < i ==> is_room_within(
                    bsp@.nodes[bsp_leaves@[k] as int].extends,
                    min_side_length,
                    (#[trigger] graph.rooms@[k]).extends,
                ),
        decreases bsp_leaves@.len() - i,
    {
        assert(bsp@.is_leaf(bsp_leaves@[i as int] as int));
        let area = bsp.node(bsp_leaves[i]).extends;
        let room_box = if area.is_moderate() && 0 <= min_side_length && min_side_length
            <= MODERATE {
            random_subbox(&area, min_side_length)
        } else {
            area
        };
        graph.rooms.push(Room::new(room_box));
        i = i + 1;
    }
    assert(is_leaf_list(bsp@, bsp_leaves@));
    graph
}

/// The rooms of `graph` whose floor is larger than `threshold`, in order
/// and not joined.
pub fn prune_small_rooms(graph: &RoomGraph, threshold: i32) -> (pruned: RoomGraph)
    ensures
        pruned.wf(),
        pruned.edges@.len() == 0,
        extents_of(pruned.rooms@) == extents_of(graph.rooms@).filter(
            |b: BoxExtends| b.inner_area() > threshold,
        ),
{
    let mut pruned = RoomGraph::new();
    let ghost keep = |b: BoxExtends| b.inner_area() > threshold;
    let mut i: usize = 0;
    proof {
        reveal(Seq::filter);
        assert(extents_of(graph.rooms@).take(0).filter(keep) =~= Seq::<BoxExtends>::empty());
        assert(extents_of(pruned.rooms@) =~= Seq::<BoxExtends>::empty());
    }
    while i < graph.rooms.len()
        invariant
            i <= graph.rooms@.len(),
            pruned.edges@.len() == 0,
            keep == |b: BoxExtends| b.inner_area() > threshold,
            extents_of(pruned.rooms@) == extents_of(graph.rooms@).take(i as int).filter(keep),
        decreases graph.rooms@.len() - i,
    {
        let extends = graph.rooms[i].extends;
        let ghost before = extents_of(pruned.rooms@);
        let large = inner_area_exceeds(&extends, threshold);
        proof {
            reveal(Seq::filter);
            let all = extents_of(graph.rooms@);
            assert(all.take(i as int + 1).drop_last() =~= all.take(i as int));
            assert(all.take(i as int + 1).last() == extends);
        }
        if large {
            pruned.rooms.push(graph.rooms[i].duplicate());
            assert(extents_of(pruned.rooms@) =~= before.push(extends));
        }
        i = i + 1;
    }
    assert(extents_of(graph.rooms@).take(i as int) =~= extents_of(graph.rooms@));
    pruned
}

fn inner_area_exceeds(extends: &BoxExtends, threshold: i32) -> (b: bool)
    ensures
        b == (extends.inner_area() > threshold),
{
    let inner_x: i128 = extends.bottom_right.x as i128 - extends.top_left.x as i128 - 1;
    let inner_y: i128 = extends.bottom_right.y as i128 - extends.top_left.y as i128 - 1;
    if inner_x <= 0 || inner_y <= 0 {
        return 0 > threshold;
    }
    assert(0 < inner_x * inner_y <= 0x1_0000_0000 * 0x1_0000_0000) by (nonlinear_arith)
        requires
            0 < inner_x <= 0x1_0000_0000,
            0 < inner_y <= 0x1_0000_0000,
    ;
    inner_x * inner_y > threshold as i128
}

fn contains_index(indices: &Vec<usize>, index: usize) -> (b: bool)
    ensures
        b == indices@.contains(index),
{
    let mut i: usize = 0;
    while i < indices.len()
        invariant
            i <= indices@.len(),
            forall|k: int| 0 <= k < i ==> indices@[k] != index,
        decreases indices@.len() - i,
    {
        if indices[i] == index {
            return true;
        }
        i = i + 1;
    }
    false
}

/// How far from a room other rooms are looked for at the ends of its sides.
pub const VICINITY_OVERLAP: i32 = 2;

/// Whether the room with the extent `other` lies near the room with the
/// extent `area`: it overlaps one of the boxes that scan the surroundings of
/// `area` up to `max_scan_distance`.
pub open spec fn lies_near(area: BoxExtends, other: BoxExtends, max_scan_distance: i32) -> bool {
    exists|k: int|
        0 <= k < 4 && other.spec_overlaps(
            #[trigger] edge_vicinity_boxes(area, max_scan_distance, VICINITY_OVERLAP)[k],
        )
}

fn near(area: &BoxExtends, other: &BoxExtends, max_scan_distance: i32) -> (b: bool)
    requires
        area.spec_moderate(),
        0 <= max_scan_distance <= MODERATE,
    ensures
        b == lies_near(*area, *other, max_scan_distance),
{
    let collision_boxes = make_edge_vicinity_boxes(area, max_scan_distance, VICINITY_OVERLAP);
    let mut k: usize = 0;
    while k < collision_boxes.len()
        invariant
            k <= 4,
            collision_boxes@ == edge_vicinity_boxes(*area, max_scan_distance, VICINITY_OVERLAP),
            forall|j: int| 0 <= j < k ==> !other.spec_overlaps(#[trigger] collision_boxes@[j]),
        decreases 4 - k,
    {
        if other.overlaps(&collision_boxes[k]) {
            return true;
        }
        k = k + 1;
    }
    false
}

/// The rooms of `room_graph`, each joined to the rooms that lie near it.
/// The rooms are gone through in order; a room that is found near another
/// is gone through next. Rooms that are too far from the axes for the sums
/// to be of type `i32` are joined to nothing.
pub fn make_connected_graph(room_graph: &RoomGraph, max_scan_distance: i32) -> (graph: RoomGraph)
    ensures
        graph.wf(),
        extents_of(graph.rooms@) == extents_of(room_graph.rooms@),
        forall|i: int|
            0 <= i < graph.edges@.len() ==> lies_near(
                room_graph.rooms@[(#[trigger] graph.edges@[i]).0 as int].extends,
                room_graph.rooms@[graph.edges@[i].1 as int].extends,
                max_scan_distance,
            ),
{
    let rooms = copy_rooms(&room_graph.rooms);
    assert(extents_of(rooms@) =~= extents_of(room_graph.rooms@));
    let mut graph = RoomGraph { rooms, edges: Vec::new() };
    let count = room_graph.rooms.len();
    let mut unprocessed: usize = 0;
    let mut opened: Vec<usize> = Vec::new();
    let mut closed: Vec<usize> = Vec::new();
    let mut fuel: usize = usize::MAX;
    while fuel > 0
        invariant
            count == room_graph.rooms@.len(),
            graph.rooms@.len() == count,
            extents_of(graph.rooms@) == extents_of(room_graph.rooms@),
            unprocessed <= count,
            forall|i: int| 0 <= i < opened@.len() ==> #[trigger] opened@[i] < count,
            graph.wf(),
            forall|i: int|
                0 <= i < graph.edges@.len() ==> lies_near(
                    room_graph.rooms@[(#[trigger] graph.edges@[i]).0 as int].extends,
                    room_graph.rooms@[graph.edges@[i].1 as int].extends,
                    max_scan_distance,
                ),
        decreases fuel,
    {
        fuel = fuel - 1;
        let current: usize = if opened.len() == 0 {
            if unprocessed >= count {
                break ;
            }
            unprocessed = unprocessed + 1;
            unprocessed - 1
        } else {
            match opened.pop() {
                Some(c) => c,
                None => {
                    break ;
                },
            }
        };
        closed.push(current);
        let area = room_graph.rooms[current].extends;
        if !(area.is_moderate() && 0 <= max_scan_distance && max_scan_distance <= MODERATE) {
            continue ;
        }
        let mut other: usize = unprocessed;
        while other < count
            invariant
                count == room_graph.rooms@.len(),
                graph.rooms@.len() == count,
                extents_of(graph.rooms@) == extents_of(room_graph.rooms@),
                current < count,
                unprocessed <= other <= count,
                area == room_graph.rooms@[current as int].extends,
                area.spec_moderate(),
                0 <= max_scan_distance <= MODERATE,
                forall|i: int| 0 <= i < opened@.len() ==> #[trigger] opened@[i] < count,
                graph.wf(),
                forall|i: int|
                    0 <= i < graph.edges@.len() ==> lies_near(
                        room_graph.rooms@[(#[trigger] graph.edges@[i]).0 as int].extends,
                        room_graph.rooms@[graph.edges@[i].1 as int].extends,
                        max_scan_distance,
                    ),
            decreases count - other,
        {
            if near(&area, &room_graph.rooms[other].extends, max_scan_distance) && !contains_index(
                &closed,
                other,
            ) {
                opened.push(other);
                graph.edges.push((current, other));
            }
            other = other + 1;
        }
    }
    graph
}

/// An edge joins `a` and `b` where one joins `b` and `a`.
proof fn lemma_joined_either_way(edges: Seq<(usize, usize)>, a: usize, b: usize)
    requires
        is_joined(edges, a, b),
    ensures
        is_joined(edges, b, a),
{
    let k = choose|k: int| 0 <= k < edges.len() && (#[trigger] edges[k] == (a, b) || edges[k] == (b, a));
    assert(edges[k] == (b, a) || edges[k] == (a, b));
}

/// Takes the first edge that joins `a` and `b` out of `edges`, if there is
/// one.
fn remove_first_edge(edges: &mut Vec<(usize, usize)>, a: usize, b: usize) -> (removed: bool)
    ensures
        removed == is_joined(old(edges)@, a, b),
        removed ==> final(edges)@.len() + 1 == old(edges)@.len(),
        !removed ==> final(edges)@ == old(edges)@,
        forall|i: int|
            0 <= i < final(edges)@.len() ==> old(edges)@.contains(#[trigger] final(edges)@[i]),
{
    let mut k: usize = 0;
    while k < edges.len()
        invariant
            k <= edges@.len(),
            edges@ == old(edges)@,
            forall|j: int| 0 <= j < k ==> edges@[j] != (a, b) && edges@[j] != (b, a),
        decreases edges@.len() - k,
    {
        let (x, y) = edges[k];
        if (x == a && y == b) || (x == b && y == a) {
            assert(old(edges)@[k as int] == (a, b) || old(edges)@[k as int] == (b, a));
            edges.remove(k);
            proof {
                assert forall|i: int| 0 <= i < edges@.len() implies old(edges)@.contains(
                    #[trigger] edges@[i],
                ) by {
                    if i < k {
                        assert(old(edges)@[i] == edges@[i]);
                    } else {
                        assert(old(edges)@[i + 1] == edges@[i]);
                    }
                }
            }
            return true;
        }
        k = k + 1;
    }
    proof {
        assert forall|i: int| 0 <= i < edges@.len() implies old(edges)@.contains(
            #[trigger] edges@[i],
        ) by {
            assert(old(edges)@[i] == edges@[i]);
        }
    }
    false
}

/// Takes edges from the rooms that have `edge_threshold` edges or more, as
/// long as the graph stays in one part: from each such room up to
/// `max_trim_amount` edges, those first that lead to the rooms with the
/// fewest edges.
pub fn prune_edges(graph: &RoomGraph, edge_threshold: usize, max_trim_amount: usize) -> (pruned:
    RoomGraph)
    requires
        graph.wf(),
    ensures
        pruned.wf(),
        extents_of(pruned.rooms@) == extents_of(graph.rooms@),
        pruned.edges@.len() <= graph.edges@.len(),
        forall|k: int|
            0 <= k < pruned.edges@.len() ==> is_joined(
                graph.edges@,
                (#[trigger] pruned.edges@[k]).0,
                pruned.edges@[k].1,
            ),
{
    let rooms = copy_rooms(&graph.rooms);
    assert(extents_of(rooms@) =~= extents_of(graph.rooms@));
    let mut edges: Vec<(usize, usize)> = Vec::new();
    let mut i: usize = 0;
    while i < graph.edges.len()
        invariant
            i <= graph.edges@.len(),
            edges@ == graph.edges@.subrange(0, i as int),
        decreases graph.edges@.len() - i,
    {
        edges.push(graph.edges[i]);
        assert(edges@ =~= graph.edges@.subrange(0, i as int + 1));
        i = i + 1;
    }
    assert(edges@ =~= graph.edges@);
    let mut pruned = RoomGraph { rooms, edges };
    let mut room: usize = 0;
    while room < pruned.rooms.len()
        invariant
            graph.wf(),
            pruned.wf(),
            forall|k: int|
                0 <= k < pruned.edges@.len() ==> is_joined(
                    graph.edges@,
                    (#[trigger] pruned.edges@[k]).0,
                    pruned.edges@[k].1,
                ),
            pruned.rooms@.len() == graph.rooms@.len(),
            extents_of(pruned.rooms@) == extents_of(graph.rooms@),
            pruned.edges@.len() <= graph.edges@.len(),
            room <= pruned.rooms@.len(),
        decreases pruned.rooms@.len() - room,
    {
        let mut neighbors = pruned.neighbors(room);
        if neighbors.len() >= edge_threshold {
            sort_by_degree(&mut neighbors, graph);
            let mut index: usize = 0;
            while index < neighbors.len() && index < max_trim_amount
                invariant
                    graph.wf(),
                    pruned.wf(),
                    forall|k: int|
                        0 <= k < pruned.edges@.len() ==> is_joined(
                            graph.edges@,
                            (#[trigger] pruned.edges@[k]).0,
                            pruned.edges@[k].1,
                        ),
                    pruned.rooms@.len() == graph.rooms@.len(),
                    extents_of(pruned.rooms@) == extents_of(graph.rooms@),
                    pruned.edges@.len() <= graph.edges@.len(),
                    room < pruned.rooms@.len(),
                    index <= neighbors@.len(),
                    forall|k: int|
                        0 <= k < neighbors@.len() ==> #[trigger] neighbors@[k]
                            < pruned.rooms@.len(),
                decreases neighbors@.len() - index,
            {
                let neighbor = neighbors[index];
                let ghost before = pruned.edges@;
                let removed = remove_first_edge(&mut pruned.edges, room, neighbor);
                proof {
                    assert forall|k: int| 0 <= k < pruned.edges@.len() implies (
                    #[trigger] pruned.edges@[k]).0 < pruned.rooms@.len() && pruned.edges@[k].1
                        < pruned.rooms@.len() by {
                        assert(before.contains(pruned.edges@[k]));
                        let j = choose|j: int|
                            0 <= j < before.len() && before[j] == pruned.edges@[k];
                        assert(before[j].0 < pruned.rooms@.len());
                    }
                    assert forall|k: int| 0 <= k < pruned.edges@.len() implies is_joined(
                        graph.edges@,
                        (#[trigger] pruned.edges@[k]).0,
                        pruned.edges@[k].1,
                    ) by {
                        let j = choose|j: int|
                            0 <= j < before.len() && before[j] == pruned.edges@[k];
                    }
                    if removed {
                        let j = choose|j: int|
                            0 <= j < before.len() && (#[trigger] before[j] == (room, neighbor)
                                || before[j] == (neighbor, room));
                        assert(is_joined(graph.edges@, before[j].0, before[j].1));
                        lemma_joined_either_way(graph.edges@, neighbor, room);
                    }
                }
                if removed && pruned.parts() != 1 {
                    let ghost cut = pruned.edges@;
                    pruned.edges.push((room, neighbor));
                    assert forall|k: int| 0 <= k < pruned.edges@.len() implies is_joined(
                        graph.edges@,
                        (#[trigger] pruned.edges@[k]).0,
                        pruned.edges@[k].1,
                    ) by {
                        if k < cut.len() {
                            assert(pruned.edges@[k] == cut[k]);
                        }
                    }
                }
                index = index + 1;
            }
        }
        room = room + 1;
    }
    pruned
}

/// How many edges `room` has.
pub open spec fn degree(edges: Seq<(usize, usize)>, room: usize) -> nat {
    neighbors_of(edges, room).len()
}

/// The rooms of `rooms` that have `d` edges, in order.
pub open spec fn of_degree(rooms: Seq<usize>, edges: Seq<(usize, usize)>, d: nat) -> Seq<usize> {
    rooms.filter(|room: usize| degree(edges, room) == d)
}

/// Whether `sorted` is `rooms` in the order of their degrees, fewest edges
/// first, rooms with the same number of edges in the order that they have
/// in `rooms`.
pub open spec fn is_sorted_by_degree(
    sorted: Seq<usize>,
    rooms: Seq<usize>,
    edges: Seq<(usize, usize)>,
) -> bool {
    &&& sorted.len() == rooms.len()
    &&& forall|i: int, j: int|
        0 <= i < j < sorted.len() ==> degree(edges, #[trigger] sorted[i]) <= degree(
            edges,
            #[trigger] sorted[j],
        )
    &&& forall|d: nat| #[trigger] of_degree(sorted, edges, d) == of_degree(rooms, edges, d)
}

/// Two rooms with different numbers of edges that stand side by side can
/// change places without changing the order of the rooms of any degree.
proof fn lemma_swap_keeps_degrees(rooms: Seq<usize>, j: int, edges: Seq<(usize, usize)>, d: nat)
    requires
        0 < j < rooms.len(),
        degree(edges, rooms[j - 1]) != degree(edges, rooms[j]),
    ensures
        of_degree(rooms.update(j - 1, rooms[j]).update(j, rooms[j - 1]), edges, d) == of_degree(
            rooms,
            edges,
            d,
        ),
{
    let keep = |room: usize| degree(edges, room) == d;
    let swapped = rooms.update(j - 1, rooms[j]).update(j, rooms[j - 1]);
    let head = rooms.take(j - 1);
    let tail = rooms.skip(j + 1);
    let pair = seq![rooms[j - 1], rooms[j]];
    let turned = seq![rooms[j], rooms[j - 1]];
    assert(rooms =~= head + pair + tail);
    assert(swapped =~= head + turned + tail);
    Seq::filter_distributes_over_add(head + pair, tail, keep);
    Seq::filter_distributes_over_add(head, pair, keep);
    Seq::filter_distributes_over_add(head + turned, tail, keep);
    Seq::filter_distributes_over_add(head, turned, keep);
    reveal_with_fuel(Seq::filter, 3);
    assert(pair.drop_last() =~= seq![rooms[j - 1]]);
    assert(turned.drop_last() =~= seq![rooms[j]]);
    assert(seq![rooms[j - 1]].drop_last() =~= Seq::<usize>::empty());
    assert(seq![rooms[j]].drop_last() =~= Seq::<usize>::empty());
    assert(pair.filter(keep) =~= turned.filter(keep));
}

/// Orders `neighbors` by the number of edges that each has in `graph`,
/// fewest first; rooms with the same number stay in their order.
fn sort_by_degree(neighbors: &mut Vec<usize>, graph: &RoomGraph)
    requires
        graph.wf(),
        forall|k: int| 0 <= k < old(neighbors)@.len() ==> #[trigger] old(neighbors)@[k]
            < graph.rooms@.len(),
    ensures
        is_sorted_by_degree(final(neighbors)@, old(neighbors)@, graph.edges@),
        final(neighbors)@.len() == old(neighbors)@.len(),
        forall|k: int|
            0 <= k < final(neighbors)@.len() ==> #[trigger] final(neighbors)@[k]
                < graph.rooms@.len(),
{
    let mut degrees: Vec<usize> = Vec::new();
    let mut i: usize = 0;
    while i < neighbors.len()
        invariant
            graph.wf(),
            i <= neighbors@.len(),
            degrees@.len() == i,
            neighbors@ == old(neighbors)@,
            forall|k: int|
                0 <= k < i ==> #[trigger] degrees@[k] == degree(graph.edges@, neighbors@[k]),
        decreases neighbors@.len() - i,
    {
        degrees.push(graph.neighbors(neighbors[i]).len());
        i = i + 1;
    }
    let mut sorted: usize = 1;
    while sorted < neighbors.len()
        invariant
            1 <= sorted,
            neighbors@.len() == old(neighbors)@.len(),
            degrees@.len() == neighbors@.len(),
            forall|k: int| 0 <= k < neighbors@.len() ==> #[trigger] neighbors@[k]
                < graph.rooms@.len(),
            forall|k: int|
                0 <= k < neighbors@.len() ==> #[trigger] degrees@[k] == degree(
                    graph.edges@,
                    neighbors@[k],
                ),
            forall|a: int, b: int|
                0 <= a < b < sorted && b < neighbors@.len() ==> #[trigger] degrees@[a]
                    <= #[trigger] degrees@[b],
            forall|d: nat| #[trigger]
                of_degree(neighbors@, graph.edges@, d) == of_degree(
                    old(neighbors)@,
                    graph.edges@,
                    d,
                ),
        decreases neighbors@.len() - sorted,
    {
        let mut j: usize = sorted;
        while j > 0 && degrees[j - 1] > degrees[j]
            invariant
                j <= sorted < neighbors@.len(),
                neighbors@.len() == old(neighbors)@.len(),
                degrees@.len() == neighbors@.len(),
                forall|k: int| 0 <= k < neighbors@.len() ==> #[trigger] neighbors@[k]
                    < graph.rooms@.len(),
                forall|k: int|
                    0 <= k < neighbors@.len() ==> #[trigger] degrees@[k] == degree(
                        graph.edges@,
                        neighbors@[k],
                    ),
                forall|a: int, b: int|
                    0 <= a < b <= sorted && a != j && b != j ==> #[trigger] degrees@[a]
                        <= #[trigger] degrees@[b],
                forall|b: int| j < b <= sorted ==> degrees@[j as int] < #[trigger] degrees@[b],
                forall|d: nat| #[trigger]
                    of_degree(neighbors@, graph.edges@, d) == of_degree(
                        old(neighbors)@,
                        graph.edges@,
                        d,
                    ),
            decreases j,
        {
            let ghost before = neighbors@;
            let d = degrees[j];
            let n = neighbors[j];
            let d_before = degrees[j - 1];
            let n_before = neighbors[j - 1];
            degrees[j] = d_before;
            neighbors[j] = n_before;
            degrees[j - 1] = d;
            neighbors[j - 1] = n;
            proof {
                assert(neighbors@ =~= before.update(j - 1, before[j as int]).update(
                    j as int,
                    before[j - 1],
                ));
                assert forall|d: nat| #[trigger]
                    of_degree(neighbors@, graph.edges@, d) == of_degree(
                        old(neighbors)@,
                        graph.edges@,
                        d,
                    ) by {
                    lemma_swap_keeps_degrees(before, j as int, graph.edges@, d);
                }
            }
            j = j - 1;
        }
        sorted = sorted + 1;
    }
    proof {
        assert forall|i: int, j: int| 0 <= i < j < neighbors@.len() implies degree(
            graph.edges@,
            #[trigger] neighbors@[i],
        ) <= degree(graph.edges@, #[trigger] neighbors@[j]) by {
            assert(degrees@[i] <= degrees@[j]);
        }
    }
}

/// Whether `c` is a cell of the room that is drawn within `room_box`.
pub open spec fn in_drawn_room(room_box: BoxExtends, c: Coordinate) -> bool {
    room_box.top_left.x <= c.x <= room_box.bottom_right.x && (c.y == room_box.top_left.y || c.y
        == room_box.bottom_right.y || room_box.top_left.y < c.y < room_box.bottom_right.y)
}

/// The tile of the cell `c` of the room that is drawn within `room_box`:
/// wall on its border, floor within.
pub open spec fn room_tile(room_box: BoxExtends, c: Coordinate) -> TileID {
    if c.x == room_box.top_left.x || c.x == room_box.bottom_right.x || c.y
        == room_box.top_left.y || c.y == room_box.bottom_right.y {
        TileID(WALL_TILEID)
    } else {
        TileID(FLOOR_TILEID)
    }
}

/// The tiles after a room was drawn within `room_box`.
pub open spec fn with_room(tiles: Map<Coordinate, TileID>, room_box: BoxExtends) -> Map<
    Coordinate,
    TileID,
> {
    Map::new(
        |c: Coordinate| tiles.contains_key(c) || in_drawn_room(room_box, c),
        |c: Coordinate|
            if in_drawn_room(room_box, c) {
                room_tile(room_box, c)
            } else {
                tiles[c]
            },
    )
}

/// Draws an empty room within `room_box`: walls around a floor.
pub fn draw_room(room_box: BoxExtends, map: &mut GameMap)
    ensures
        final(map).map@ == with_room(old(map).map@, room_box),
        final(map).explored == old(map).explored,
        final(map).rooms == old(map).rooms,
        final(map).room_edges == old(map).room_edges,
        final(map).width == old(map).width,
        final(map).height == old(map).height,
        final(map).depth == old(map).depth,
        final(map).pathing_grid == old(map).pathing_grid,
{
    let left: i64 = room_box.top_left.x as i64;
    let top: i64 = room_box.top_left.y as i64;
    let right: i64 = room_box.bottom_right.x as i64;
    let bottom: i64 = room_box.bottom_right.y as i64;
    let mut x: i64 = left;
    assert(map.map@ =~= Map::new(
        |c: Coordinate| old(map).map@.contains_key(c) || (in_drawn_room(room_box, c) && c.x < x),
        |c: Coordinate|
            if in_drawn_room(room_box, c) && c.x < x {
                room_tile(room_box, c)
            } else {
                old(map).map@[c]
            },
    ));
    while x <= right
        invariant
            left == room_box.top_left.x,
            top == room_box.top_left.y,
            right == room_box.bottom_right.x,
            bottom == room_box.bottom_right.y,
            left <= x,
            x <= right + 1 || left > right,
            left > right ==> x == left,
            map.map@ =~= Map::new(
                |c: Coordinate|
                    old(map).map@.contains_key(c) || (in_drawn_room(room_box, c) && c.x < x),
                |c: Coordinate|
                    if in_drawn_room(room_box, c) && c.x < x {
                        room_tile(room_box, c)
                    } else {
                        old(map).map@[c]
                    },
            ),
            map.explored == old(map).explored,
            map.rooms == old(map).rooms,
            map.room_edges == old(map).room_edges,
            map.width == old(map).width,
            map.height == old(map).height,
            map.depth == old(map).depth,
            map.pathing_grid == old(map).pathing_grid,
        decreases right + 1 - x,
    {
        map.set_game_tile(Coordinate { x: x as i32, y: top as i32 }, TileID(WALL_TILEID));
        map.set_game_tile(Coordinate { x: x as i32, y: bottom as i32 }, TileID(WALL_TILEID));
        let mut y: i64 = top + 1;
        while y < bottom
            invariant
                left == room_box.top_left.x,
                top == room_box.top_left.y,
                right == room_box.bottom_right.x,
                bottom == room_box.bottom_right.y,
                left <= x <= right,
                top + 1 <= y,
                y <= bottom || top + 1 > bottom,
                top + 1 > bottom ==> y == top + 1,
                map.map@ =~= Map::new(
                    |c: Coordinate|
                        old(map).map@.contains_key(c) || (in_drawn_room(room_box, c) && (c.x < x
                            || (c.x == x && (c.y == top || c.y == bottom || c.y < y)))),
                    |c: Coordinate|
                        if in_drawn_room(room_box, c) && (c.x < x || (c.x == x && (c.y == top
                            || c.y == bottom || c.y < y))) {
                            room_tile(room_box, c)
                        } else {
                            old(map).map@[c]
                        },
                ),
                map.explored == old(map).explored,
                map.rooms == old(map).rooms,
                map.room_edges == old(map).room_edges,
                map.width == old(map).width,
                map.height == old(map).height,
                map.depth == old(map).depth,
                map.pathing_grid == old(map).pathing_grid,
            decreases bottom - y,
        {
            let tile = if x == left || x == right {
                TileID(WALL_TILEID)
            } else {
                TileID(FLOOR_TILEID)
            };
            map.set_game_tile(Coordinate { x: x as i32, y: y as i32 }, tile);
            y = y + 1;
        }
        x = x + 1;
    }
    assert(map.map@ =~= with_room(old(map).map@, room_box));
}

/// The tile that `tiles` has at `c`, or the void where it has none.
pub open spec fn tile_on(tiles: Map<Coordinate, TileID>, c: Coordinate) -> TileID {
    if tiles.contains_key(c) {
        tiles[c]
    } else {
        TileID(DEFAULT_TILEID)
    }
}

/// The cell of a corridor that lies `along` its course on the line `line`:
/// a vertical corridor runs along a column, a horizontal one along a row.
pub open spec fn corridor_cell(vertical: bool, line: int, along: int) -> Coordinate {
    if vertical {
        Coordinate { x: line as i32, y: along as i32 }
    } else {
        Coordinate { x: along as i32, y: line as i32 }
    }
}

/// The tiles after a corridor on the line `fixed` was drawn at `along`.
/// Between two walls it breaks through the wall in its way. Where it meets
/// a wall with the void on one side and a wall or floor on the other, it
/// turns the wall into floor and walls off the void, unless a wall lies
/// behind it. In the void it lays floor with a wall on either side. Else it
/// changes nothing.
pub open spec fn corridor_step(
    tiles: Map<Coordinate, TileID>,
    vertical: bool,
    fixed: int,
    along: int,
) -> Map<Coordinate, TileID> {
    let before = corridor_cell(vertical, fixed - 1, along);
    let center = corridor_cell(vertical, fixed, along);
    let after = corridor_cell(vertical, fixed + 1, along);
    let behind = corridor_cell(vertical, fixed, along - 1);
    let first = tile_on(tiles, before).0;
    let middle = tile_on(tiles, center).0;
    let last = tile_on(tiles, after).0;
    let wall_behind = tile_on(tiles, behind).0 == WALL_TILEID;
    if first == WALL_TILEID && middle == WALL_TILEID && last == WALL_TILEID {
        tiles.insert(center, TileID(FLOOR_TILEID))
    } else if first == DEFAULT_TILEID && middle == WALL_TILEID && (last == FLOOR_TILEID || last
        == WALL_TILEID) {
        if wall_behind {
            tiles
        } else {
            tiles.insert(before, TileID(WALL_TILEID)).insert(center, TileID(FLOOR_TILEID))
        }
    } else if (first == FLOOR_TILEID || first == WALL_TILEID) && middle == WALL_TILEID && last
        == DEFAULT_TILEID {
        if wall_behind {
            tiles
        } else {
            tiles.insert(center, TileID(FLOOR_TILEID)).insert(after, TileID(WALL_TILEID))
        }
    } else if middle == DEFAULT_TILEID {
        tiles.insert(before, TileID(WALL_TILEID)).insert(center, TileID(FLOOR_TILEID)).insert(
            after,
            TileID(WALL_TILEID),
        )
    } else {
        tiles
    }
}

/// The tiles after a corridor on the line `fixed` was drawn from `low` to
/// `high`, cell by cell.
pub open spec fn corridor_drawn(
    tiles: Map<Coordinate, TileID>,
    vertical: bool,
    fixed: int,
    low: int,
    high: int,
) -> Map<Coordinate, TileID>
    decreases high - low + 1,
{
    if high < low {
        tiles
    } else {
        corridor_step(corridor_drawn(tiles, vertical, fixed, low, high - 1), vertical, fixed, high)
    }
}

/// The tiles after a corridor was drawn from `start` to `end`: along the
/// column of `start` between the two rows where it is vertical, along the
/// row of `start` between the two columns where it is not. Nothing is
/// drawn where a cell beside or behind the corridor would have no number of
/// type `i32`.
pub open spec fn with_corridor(
    tiles: Map<Coordinate, TileID>,
    start: Coordinate,
    end: Coordinate,
    vertical: bool,
) -> Map<Coordinate, TileID> {
    let fixed: int = if vertical {
        start.x as int
    } else {
        start.y as int
    };
    let from: int = if vertical {
        start.y as int
    } else {
        start.x as int
    };
    let to: int = if vertical {
        end.y as int
    } else {
        end.x as int
    };
    let low = if from < to {
        from
    } else {
        to
    };
    let high = if from < to {
        to
    } else {
        from
    };
    if fixed <= i32::MIN || fixed >= i32::MAX || low <= i32::MIN {
        tiles
    } else {
        corridor_drawn(tiles, vertical, fixed, low, high)
    }
}

/// Draws a corridor from `start` to `end`. The tile that a corridor writes
/// is a wall or a floor, and it writes nowhere but on the cells of its
/// middle and beside them.
fn draw_corridor(start: Coordinate, end: Coordinate, vertical: bool, map: &mut GameMap)
    ensures
        final(map).map@ == with_corridor(old(map).map@, start, end, vertical),
        final(map).explored == old(map).explored,
        final(map).rooms == old(map).rooms,
        final(map).room_edges == old(map).room_edges,
        final(map).width == old(map).width,
        final(map).height == old(map).height,
        final(map).depth == old(map).depth,
        final(map).pathing_grid == old(map).pathing_grid,
        forall|c: Coordinate| old(map).map@.contains_key(c) ==> final(map).map@.contains_key(c),
        forall|c: Coordinate| #[trigger]
            final(map).map@.contains_key(c) ==> (old(map).map@.contains_key(c) && final(map).map@[c]
                == old(map).map@[c]) || final(map).map@[c] == TileID(WALL_TILEID) || final(map).map@[c] == TileID(FLOOR_TILEID),
{
    let fixed: i64 = if vertical {
        start.x as i64
    } else {
        start.y as i64
    };
    let (from, to): (i64, i64) = if vertical {
        (start.y as i64, end.y as i64)
    } else {
        (start.x as i64, end.x as i64)
    };
    let (low, high): (i64, i64) = if from < to {
        (from, to)
    } else {
        (to, from)
    };
    if fixed <= i32::MIN as i64 || fixed >= i32::MAX as i64 || low <= i32::MIN as i64 {
        return ;
    }
    let mut along: i64 = low;
    while along <= high
        invariant
            i32::MIN < fixed < i32::MAX,
            i32::MIN < low <= along,
            along <= high + 1,
            high <= i32::MAX,
            map.map@ == corridor_drawn(old(map).map@, vertical, fixed as int, low as int, along - 1),
            map.explored == old(map).explored,
            map.rooms == old(map).rooms,
            map.room_edges == old(map).room_edges,
            map.width == old(map).width,
            map.height == old(map).height,
            map.depth == old(map).depth,
            map.pathing_grid == old(map).pathing_grid,
            forall|c: Coordinate| old(map).map@.contains_key(c) ==> map.map@.contains_key(c),
            forall|c: Coordinate| #[trigger]
                map.map@.contains_key(c) ==> (old(map).map@.contains_key(c) && map.map@[c] == old(map).map@[c])
                    || map.map@[c] == TileID(WALL_TILEID) || map.map@[c] == TileID(
                    FLOOR_TILEID,
                ),
        decreases high + 1 - along,
    {
        let ghost tiles = map.map@;
        let center = if vertical {
            Coordinate { x: fixed as i32, y: along as i32 }
        } else {
            Coordinate { x: along as i32, y: fixed as i32 }
        };
        let before = if vertical {
            Coordinate { x: (fixed - 1) as i32, y: along as i32 }
        } else {
            Coordinate { x: along as i32, y: (fixed - 1) as i32 }
        };
        let after = if vertical {
            Coordinate { x: (fixed + 1) as i32, y: along as i32 }
        } else {
            Coordinate { x: along as i32, y: (fixed + 1) as i32 }
        };
        let behind = if vertical {
            Coordinate { x: fixed as i32, y: (along - 1) as i32 }
        } else {
            Coordinate { x: (along - 1) as i32, y: fixed as i32 }
        };
        assert(before == corridor_cell(vertical, fixed - 1, along as int));
        assert(center == corridor_cell(vertical, fixed as int, along as int));
        assert(after == corridor_cell(vertical, fixed + 1, along as int));
        assert(behind == corridor_cell(vertical, fixed as int, along - 1));
        let first = map.get_game_tile(before).0;
        let middle = map.get_game_tile(center).0;
        let last = map.get_game_tile(after).0;
        let wall_behind = map.get_game_tile(behind).0 == WALL_TILEID;
        if first == WALL_TILEID && middle == WALL_TILEID && last == WALL_TILEID {
            map.set_game_tile(center, TileID(FLOOR_TILEID));
        } else if first == DEFAULT_TILEID && middle == WALL_TILEID && (last == FLOOR_TILEID || last
            == WALL_TILEID) {
            if !wall_behind {
                map.set_game_tile(before, TileID(WALL_TILEID));
                map.set_game_tile(center, TileID(FLOOR_TILEID));
            }
        } else if (first == FLOOR_TILEID || first == WALL_TILEID) && middle == WALL_TILEID && last
            == DEFAULT_TILEID {
            if !wall_behind {
                map.set_game_tile(center, TileID(FLOOR_TILEID));
                map.set_game_tile(after, TileID(WALL_TILEID));
            }
        } else if middle == DEFAULT_TILEID {
            map.set_game_tile(before, TileID(WALL_TILEID));
            map.set_game_tile(center, TileID(FLOOR_TILEID));
            map.set_game_tile(after, TileID(WALL_TILEID));
        }
        assert(map.map@ == corridor_step(tiles, vertical, fixed as int, along as int));
        along = along + 1;
    }
}

/// Draws a corridor that runs along the column of `start` from its row to
/// the row of `end`: floor, with walls on both sides where it crosses the
/// void. It breaks through a wall that it meets head-on, and runs along the
/// outside of a wall that it meets sideways.
pub fn draw_vertical_corridor(start: Coordinate, end: Coordinate, map: &mut GameMap)
    ensures
        final(map).map@ == with_corridor(old(map).map@, start, end, true),
        final(map).explored == old(map).explored,
        final(map).rooms == old(map).rooms,
        final(map).room_edges == old(map).room_edges,
        final(map).width == old(map).width,
        final(map).height == old(map).height,
        final(map).depth == old(map).depth,
        final(map).pathing_grid == old(map).pathing_grid,
        forall|c: Coordinate| old(map).map@.contains_key(c) ==> final(map).map@.contains_key(c),
        forall|c: Coordinate| #[trigger]
            final(map).map@.contains_key(c) ==> (old(map).map@.contains_key(c) && final(map).map@[c]
                == old(map).map@[c]) || final(map).map@[c] == TileID(WALL_TILEID) || final(map).map@[c] == TileID(FLOOR_TILEID),
{
    draw_corridor(start, end, true, map);
}

/// Draws a corridor that runs along the row of `start` from its column to
/// the column of `end`, as `draw_vertical_corridor` does along a column.
pub fn draw_horizontal_corridor(start: Coordinate, end: Coordinate, map: &mut GameMap)
    ensures
        final(map).map@ == with_corridor(old(map).map@, start, end, false),
        final(map).explored == old(map).explored,
        final(map).rooms == old(map).rooms,
        final(map).room_edges == old(map).room_edges,
        final(map).width == old(map).width,
        final(map).height == old(map).height,
        final(map).depth == old(map).depth,
        final(map).pathing_grid == old(map).pathing_grid,
        forall|c: Coordinate| old(map).map@.contains_key(c) ==> final(map).map@.contains_key(c),
        forall|c: Coordinate| #[trigger]
            final(map).map@.contains_key(c) ==> (old(map).map@.contains_key(c) && final(map).map@[c]
                == old(map).map@[c]) || final(map).map@[c] == TileID(WALL_TILEID) || final(map).map@[c] == TileID(FLOOR_TILEID),
{
    draw_corridor(start, end, false, map);
}

/// The first column, or row, that lies within both of two spans, walls
/// excluded: the larger of the two beginnings and one, where that lies
/// before both ends.
pub open spec fn first_shared(a_low: int, a_high: int, b_low: int, b_high: int) -> Option<int> {
    let low = if a_low > b_low {
        a_low + 1
    } else {
        b_low + 1
    };
    if low < a_high && low < b_high {
        Some(low)
    } else {
        None
    }
}

fn shared(a_low: i32, a_high: i32, b_low: i32, b_high: i32) -> (found: Option<i32>)
    ensures
        match found {
            Some(v) => first_shared(a_low as int, a_high as int, b_low as int, b_high as int)
                == Some(v as int),
            None => first_shared(a_low as int, a_high as int, b_low as int, b_high as int) is None,
        },
{
    let low: i64 = if a_low > b_low {
        a_low as i64 + 1
    } else {
        b_low as i64 + 1
    };
    if low < a_high as i64 && low < b_high as i64 {
        Some(low as i32)
    } else {
        None
    }
}

/// The tiles after the corridor between two rooms was drawn: along the
/// first column that lies within both, from the middle row of the one to
/// the middle row of the other; else along the first row that lies within
/// both, from the middle column of the one to that of the other; else as
/// they were.
pub open spec fn with_path(tiles: Map<Coordinate, TileID>, box_a: BoxExtends, box_b: BoxExtends)
    -> Map<Coordinate, TileID> {
    let (a_x, a_y) = box_a.spec_center();
    let (b_x, b_y) = box_b.spec_center();
    match first_shared(
        box_a.top_left.x as int,
        box_a.bottom_right.x as int,
        box_b.top_left.x as int,
        box_b.bottom_right.x as int,
    ) {
        Some(column) => with_corridor(
            tiles,
            Coordinate { x: column as i32, y: a_y as i32 },
            Coordinate { x: column as i32, y: b_y as i32 },
            true,
        ),
        None => match first_shared(
            box_a.top_left.y as int,
            box_a.bottom_right.y as int,
            box_b.top_left.y as int,
            box_b.bottom_right.y as int,
        ) {
            Some(row) => with_corridor(
                tiles,
                Coordinate { x: a_x as i32, y: row as i32 },
                Coordinate { x: b_x as i32, y: row as i32 },
                false,
            ),
            None => tiles,
        },
    }
}

/// Draws the corridor between two rooms: along the first column that lies
/// within both, from the middle row of the one to the middle row of the
/// other; else along the first row that lies within both; else none.
pub fn draw_path_between_rooms(map: &mut GameMap, box_a: &BoxExtends, box_b: &BoxExtends)
    ensures
        final(map).map@ == with_path(old(map).map@, *box_a, *box_b),
        final(map).explored == old(map).explored,
        final(map).rooms == old(map).rooms,
        final(map).room_edges == old(map).room_edges,
        final(map).width == old(map).width,
        final(map).height == old(map).height,
        final(map).depth == old(map).depth,
        final(map).pathing_grid == old(map).pathing_grid,
        forall|c: Coordinate| old(map).map@.contains_key(c) ==> final(map).map@.contains_key(c),
        forall|c: Coordinate| #[trigger]
            final(map).map@.contains_key(c) ==> (old(map).map@.contains_key(c) && final(map).map@[c]
                == old(map).map@[c]) || final(map).map@[c] == TileID(WALL_TILEID) || final(map).map@[c] == TileID(FLOOR_TILEID),
        first_shared(
            box_a.top_left.x as int,
            box_a.bottom_right.x as int,
            box_b.top_left.x as int,
            box_b.bottom_right.x as int,
        ) is None && first_shared(
            box_a.top_left.y as int,
            box_a.bottom_right.y as int,
            box_b.top_left.y as int,
            box_b.bottom_right.y as int,
        ) is None ==> final(map).map@ == old(map).map@,
{
    if let Some(corridor_x) = shared(
        box_a.top_left.x,
        box_a.bottom_right.x,
        box_b.top_left.x,
        box_b.bottom_right.x,
    ) {
        let corridor_start = Coordinate { x: corridor_x, y: box_a.center().y };
        let corridor_end = Coordinate { x: corridor_x, y: box_b.center().y };
        draw_vertical_corridor(corridor_start, corridor_end, map);
        return ;
    }
    if let Some(corridor_y) = shared(
        box_a.top_left.y,
        box_a.bottom_right.y,
        box_b.top_left.y,
        box_b.bottom_right.y,
    ) {
        let corridor_start = Coordinate { x: box_a.center().x, y: corridor_y };
        let corridor_end = Coordinate { x: box_b.center().x, y: corridor_y };
        draw_horizontal_corridor(corridor_start, corridor_end, map);
    }
}

/// The map of the level with the rooms of `graph` and the corridors
/// between the rooms that are joined.
pub fn draw_rooms_to_map(graph: &RoomGraph, size_x: u32, size_y: u32, depth: u32) -> (map: GameMap)
    requires
        graph.wf(),
    ensures
        map.width == size_x,
        map.height == size_y,
        map.depth == depth,
        map.explored@ == Set::<Coordinate>::empty(),
        map.pathing_grid@ == Map::<Coordinate, Coordinate>::empty(),
        extents_of(map.rooms@) == extents_of(graph.rooms@),
        map.room_edges@ == graph.edges@,
        forall|c: Coordinate| #[trigger]
            map.map@.contains_key(c) ==> map.map@[c] == TileID(WALL_TILEID)
                || map.map@[c] == TileID(
                FLOOR_TILEID,
            ),
{
    let mut map = GameMap::new(size_x, size_y);
    map.rooms = copy_rooms(&graph.rooms);
    assert(extents_of(map.rooms@) =~= extents_of(graph.rooms@));
    map.depth = depth;
    let mut e: usize = 0;
    while e < graph.edges.len()
        invariant
            e <= graph.edges@.len(),
            map.room_edges@ == graph.edges@.subrange(0, e as int),
            map.width == size_x,
            map.height == size_y,
            map.depth == depth,
            map.explored@ == Set::<Coordinate>::empty(),
            map.pathing_grid@ == Map::<Coordinate, Coordinate>::empty(),
            map.map@ == Map::<Coordinate, TileID>::empty(),
            extents_of(map.rooms@) == extents_of(graph.rooms@),
        decreases graph.edges@.len() - e,
    {
        map.room_edges.push(graph.edges[e]);
        assert(map.room_edges@ =~= graph.edges@.subrange(0, e as int + 1));
        e = e + 1;
    }
    assert(map.room_edges@ =~= graph.edges@);
    let mut index: usize = 0;
    while index < graph.rooms.len()
        invariant
            index <= graph.rooms@.len(),
            map.room_edges@ == graph.edges@,
            map.width == size_x,
            map.height == size_y,
            map.depth == depth,
            map.explored@ == Set::<Coordinate>::empty(),
            map.pathing_grid@ == Map::<Coordinate, Coordinate>::empty(),
            extents_of(map.rooms@) == extents_of(graph.rooms@),
            forall|c: Coordinate| #[trigger]
                map.map@.contains_key(c) ==> map.map@[c] == TileID(WALL_TILEID) || map.map@[c]
                    == TileID(FLOOR_TILEID),
        decreases graph.rooms@.len() - index,
    {
        let ghost before = map.map@;
        draw_room(graph.rooms[index].extends, &mut map);
        proof {
            assert forall|c: Coordinate| #[trigger] map.map@.contains_key(c) implies map.map@[c]
                == TileID(WALL_TILEID) || map.map@[c] == TileID(FLOOR_TILEID) by {
                if !in_drawn_room(graph.rooms@[index as int].extends, c) {
                    assert(before.contains_key(c));
                }
            }
        }
        index = index + 1;
    }
    let mut pair: usize = 0;
    while pair < graph.edges.len()
        invariant
            graph.wf(),
            pair <= graph.edges@.len(),
            map.room_edges@ == graph.edges@,
            map.width == size_x,
            map.height == size_y,
            map.depth == depth,
            map.explored@ == Set::<Coordinate>::empty(),
            map.pathing_grid@ == Map::<Coordinate, Coordinate>::empty(),
            extents_of(map.rooms@) == extents_of(graph.rooms@),
            forall|c: Coordinate| #[trigger]
                map.map@.contains_key(c) ==> map.map@[c] == TileID(WALL_TILEID) || map.map@[c]
                    == TileID(FLOOR_TILEID),
        decreases graph.edges@.len() - pair,
    {
        let (room_a, room_b) = graph.edges[pair];
        assert(graph.edges@[pair as int].0 < graph.rooms@.len());
        let box_a = graph.rooms[room_a].extends;
        let box_b = graph.rooms[room_b].extends;
        let ghost before = map.map@;
        draw_path_between_rooms(&mut map, &box_a, &box_b);
        proof {
            assert forall|c: Coordinate| #[trigger] map.map@.contains_key(c) implies map.map@[c]
                == TileID(WALL_TILEID) || map.map@[c] == TileID(FLOOR_TILEID) by {
                if before.contains_key(c) && map.map@[c] == before[c] {
                }
            }
        }
        pair = pair + 1;
    }
    map
}

/// How many of the four cells beside `coord` can be walked on.
pub open spec fn walkable_beside(
    tiles: Map<Coordinate, TileID>,
    resources: &ResourceManager,
    coord: Coordinate,
) -> nat {
    let count = |dx: int, dy: int|
        if coord.x + dx <= i32::MAX && coord.x + dx >= i32::MIN && coord.y + dy <= i32::MAX
            && coord.y + dy >= i32::MIN && walkable_on(
            tiles,
            resources,
            Coordinate { x: (coord.x + dx) as i32, y: (coord.y + dy) as i32 },
        ) {
            1nat
        } else {
            0nat
        };
    count(0, -1) + count(0, 1) + count(-1, 0) + count(1, 0)
}

/// Whether a door fits at `coord`: the cell can be walked on, and so can
/// exactly two of the four cells beside it.
pub open spec fn door_fits(
    tiles: Map<Coordinate, TileID>,
    resources: &ResourceManager,
    coord: Coordinate,
) -> bool {
    walkable_on(tiles, resources, coord) && walkable_beside(tiles, resources, coord) == 2
}

fn counts(candidate: Option<Coordinate>, map: &GameMap, resources: &ResourceManager) -> (n: usize)
    ensures
        n == if candidate is Some && walkable_on(map.map@, resources, candidate->0) {
            1nat
        } else {
            0nat
        },
{
    match candidate {
        Some(c) => if map.is_tile_walkable(c, resources) {
            1
        } else {
            0
        },
        None => 0,
    }
}

/// Whether a door fits at `coord`.
pub fn check_door_conditions(coord: Coordinate, map: &GameMap, resources: &ResourceManager) -> (b:
    bool)
    ensures
        b == door_fits(map.map@, resources, coord),
{
    if !map.is_tile_walkable(coord, resources) {
        return false;
    }
    let walkable_neighbors = counts(coord.checked_plus(up()), map, resources) + counts(
        coord.checked_plus(down()),
        map,
        resources,
    ) + counts(coord.checked_plus(left()), map, resources) + counts(
        coord.checked_plus(right()),
        map,
        resources,
    );
    walkable_neighbors == 2
}

/// Whether `c` lies on the wall of the room within `extends`.
pub open spec fn on_wall(extends: BoxExtends, c: Coordinate) -> bool {
    extends.spec_contains_point(c) && (c.x == extends.top_left.x || c.x == extends.bottom_right.x
        || c.y == extends.top_left.y || c.y == extends.bottom_right.y)
}

/// The cells of the top and the bottom wall from the column `left` to
/// before the column `end`, column by column: the upper cell, then the
/// lower.
pub open spec fn row_cells(left: int, end: int, top: int, bottom: int) -> Seq<Coordinate>
    decreases end - left,
{
    if end <= left {
        Seq::empty()
    } else {
        row_cells(left, end - 1, top, bottom).push(
            Coordinate { x: (end - 1) as i32, y: top as i32 },
        ).push(Coordinate { x: (end - 1) as i32, y: bottom as i32 })
    }
}

/// The cells of the left and the right wall from the row `top` to before
/// the row `end`, row by row: the left cell, then the right.
pub open spec fn side_cells(left: int, right: int, top: int, end: int) -> Seq<Coordinate>
    decreases end - top,
{
    if end <= top {
        Seq::empty()
    } else {
        side_cells(left, right, top, end - 1).push(
            Coordinate { x: left as i32, y: (end - 1) as i32 },
        ).push(Coordinate { x: right as i32, y: (end - 1) as i32 })
    }
}

/// The cells of the wall of the room within `extends`, in the order in
/// which they are looked at for doors: the top and the bottom wall, column
/// by column, then what is left of the two sides, row by row. A cell that
/// lies on two of these is there twice.
pub open spec fn wall_cells(extends: BoxExtends) -> Seq<Coordinate> {
    if extends.top_left.x > extends.bottom_right.x || extends.top_left.y > extends.bottom_right.y {
        Seq::empty()
    } else {
        row_cells(
            extends.top_left.x as int,
            extends.bottom_right.x + 1,
            extends.top_left.y as int,
            extends.bottom_right.y as int,
        ) + side_cells(
            extends.top_left.x as int,
            extends.bottom_right.x as int,
            extends.top_left.y + 1,
            extends.bottom_right.y as int,
        )
    }
}

/// What is kept of a sequence with one more item is what is kept of the
/// sequence, and the item where it is kept.
proof fn lemma_filter_push(cells: Seq<Coordinate>, c: Coordinate, keep: spec_fn(Coordinate) -> bool)
    ensures
        cells.push(c).filter(keep) == if keep(c) {
            cells.filter(keep).push(c)
        } else {
            cells.filter(keep)
        },
{
    reveal(Seq::filter);
    assert(cells.push(c).drop_last() =~= cells);
}

/// The cells on the wall of the room within `extends` at which a door
/// fits, in the order in which the wall is looked at.
fn doors_of(extends: BoxExtends, map: &GameMap, resources: &ResourceManager) -> (doors: Vec<Coordinate>)
    ensures
        doors@ == wall_cells(extends).filter(|c: Coordinate| door_fits(map.map@, resources, c)),
        forall|i: int|
            0 <= i < doors@.len() ==> on_wall(extends, #[trigger] doors@[i]) && door_fits(
                map.map@,
                resources,
                doors@[i],
            ),
{
    let left: i64 = extends.top_left.x as i64;
    let top: i64 = extends.top_left.y as i64;
    let right: i64 = extends.bottom_right.x as i64;
    let bottom: i64 = extends.bottom_right.y as i64;
    let mut door_locations: Vec<Coordinate> = Vec::new();
    let ghost fits = |c: Coordinate| door_fits(map.map@, resources, c);
    proof {
        reveal(Seq::filter);
        assert(Seq::<Coordinate>::empty().filter(fits) =~= Seq::<Coordinate>::empty());
    }
    if left > right || top > bottom {
        return door_locations;
    }
    let mut x: i64 = left;
    while x <= right
        invariant
            left == extends.top_left.x,
            top == extends.top_left.y,
            right == extends.bottom_right.x,
            bottom == extends.bottom_right.y,
            left <= x <= right + 1,
            top <= bottom,
            fits == |c: Coordinate| door_fits(map.map@, resources, c),
            door_locations@ == row_cells(left as int, x as int, top as int, bottom as int).filter(
                fits,
            ),
            forall|i: int|
                0 <= i < door_locations@.len() ==> on_wall(extends, #[trigger] door_locations@[i])
                    && door_fits(map.map@, resources, door_locations@[i]),
        decreases right + 1 - x,
    {
        let top_coord = Coordinate { x: x as i32, y: top as i32 };
        let bottom_coord = Coordinate { x: x as i32, y: bottom as i32 };
        let ghost looked = row_cells(left as int, x as int, top as int, bottom as int);
        proof {
            lemma_filter_push(looked, top_coord, fits);
            lemma_filter_push(looked.push(top_coord), bottom_coord, fits);
            assert(row_cells(left as int, x + 1, top as int, bottom as int) == looked.push(
                top_coord,
            ).push(bottom_coord));
        }
        if check_door_conditions(top_coord, map, resources) {
            door_locations.push(top_coord);
        }
        if check_door_conditions(bottom_coord, map, resources) {
            door_locations.push(bottom_coord);
        }
        x = x + 1;
    }
    let ghost rows = row_cells(left as int, right + 1, top as int, bottom as int);
    assert(rows + side_cells(left as int, right as int, top + 1, top + 1) =~= rows);
    let mut y: i64 = top + 1;
    while y < bottom
        invariant
            left == extends.top_left.x,
            top == extends.top_left.y,
            right == extends.bottom_right.x,
            bottom == extends.bottom_right.y,
            left <= right,
            top + 1 <= y,
            y <= bottom || top + 1 > bottom,
            top + 1 > bottom ==> y == top + 1,
            fits == |c: Coordinate| door_fits(map.map@, resources, c),
            rows == row_cells(left as int, right + 1, top as int, bottom as int),
            door_locations@ == (rows + side_cells(
                left as int,
                right as int,
                top + 1,
                y as int,
            )).filter(fits),
            forall|i: int|
                0 <= i < door_locations@.len() ==> on_wall(extends, #[trigger] door_locations@[i])
                    && door_fits(map.map@, resources, door_locations@[i]),
        decreases bottom - y,
    {
        let left_coord = Coordinate { x: left as i32, y: y as i32 };
        let right_coord = Coordinate { x: right as i32, y: y as i32 };
        let ghost looked = rows + side_cells(left as int, right as int, top + 1, y as int);
        proof {
            lemma_filter_push(looked, left_coord, fits);
            lemma_filter_push(looked.push(left_coord), right_coord, fits);
            assert(side_cells(left as int, right as int, top + 1, y + 1) == side_cells(
                left as int,
                right as int,
                top + 1,
                y as int,
            ).push(left_coord).push(right_coord));
            assert(rows + side_cells(left as int, right as int, top + 1, y + 1)
                =~= looked.push(left_coord).push(right_coord));
        }
        if check_door_conditions(left_coord, map, resources) {
            door_locations.push(left_coord);
        }
        if check_door_conditions(right_coord, map, resources) {
            door_locations.push(right_coord);
        }
        y = y + 1;
    }
    proof {
        if y != bottom {
            assert(side_cells(left as int, right as int, top + 1, bottom as int)
                =~= Seq::<Coordinate>::empty());
            assert(side_cells(left as int, right as int, top + 1, y as int)
                =~= Seq::<Coordinate>::empty());
        }
    }
    door_locations
}

/// Gives every room its doors: the cells on its wall at which a door fits.
pub fn add_doors_to_rooms(map: &mut GameMap, resources: &ResourceManager)
    ensures
        final(map).map == old(map).map,
        final(map).explored == old(map).explored,
        final(map).room_edges == old(map).room_edges,
        final(map).width == old(map).width,
        final(map).height == old(map).height,
        final(map).depth == old(map).depth,
        final(map).pathing_grid == old(map).pathing_grid,
        final(map).rooms@.len() == old(map).rooms@.len(),
        forall|r: int|
            0 <= r < final(map).rooms@.len() ==> (#[trigger] final(map).rooms@[r]).extends == old(map).rooms@[r].extends
                && final(map).rooms@[r].template == old(map).rooms@[r].template
                && final(map).rooms@[r].room_depth == old(map).rooms@[r].room_depth
                && final(map).rooms@[r].extra_spawn == old(map).rooms@[r].extra_spawn
                && forall|i: int|
                0 <= i < final(map).rooms@[r].door_locations@.len() ==> on_wall(
                    final(map).rooms@[r].extends,
                    #[trigger] final(map).rooms@[r].door_locations@[i],
                ) && door_fits(old(map).map@, resources, final(map).rooms@[r].door_locations@[i]),
        forall|r: int|
            0 <= r < final(map).rooms@.len() ==> (#[trigger] final(map).rooms@[r]).door_locations@
                == wall_cells(old(map).rooms@[r].extends).filter(
                |c: Coordinate| door_fits(old(map).map@, resources, c),
            ),
{
    let mut node: usize = 0;
    while node < map.rooms.len()
        invariant
            node <= map.rooms@.len(),
            forall|r: int|
                0 <= r < node ==> (#[trigger] map.rooms@[r]).door_locations@ == wall_cells(
                    old(map).rooms@[r].extends,
                ).filter(|c: Coordinate| door_fits(old(map).map@, resources, c)),
            map.map == old(map).map,
            map.explored == old(map).explored,
            map.room_edges == old(map).room_edges,
            map.width == old(map).width,
            map.height == old(map).height,
            map.depth == old(map).depth,
            map.pathing_grid == old(map).pathing_grid,
            map.rooms@.len() == old(map).rooms@.len(),
            forall|r: int|
                0 <= r < map.rooms@.len() ==> (#[trigger] map.rooms@[r]).extends == old(map).rooms@[r].extends
                    && map.rooms@[r].template == old(map).rooms@[r].template
                    && map.rooms@[r].room_depth == old(map).rooms@[r].room_depth
                    && map.rooms@[r].extra_spawn == old(map).rooms@[r].extra_spawn,
            forall|r: int|
                0 <= r < node ==> forall|i: int|
                    0 <= i < (#[trigger] map.rooms@[r]).door_locations@.len() ==> on_wall(
                        map.rooms@[r].extends,
                        #[trigger] map.rooms@[r].door_locations@[i],
                    ) && door_fits(old(map).map@, resources, map.rooms@[r].door_locations@[i]),
        decreases map.rooms@.len() - node,
    {
        let extends = map.rooms[node].extends;
        let door_locations = doors_of(extends, map, resources);
        let new_room = Room {
            extends,
            door_locations,
            template: map.rooms[node].template,
            room_depth: map.rooms[node].room_depth,
            extra_spawn: map.rooms[node].extra_spawn,
        };
        map.rooms[node] = new_room;
        node = node + 1;
    }
}

/// How short the side of a room may be.
pub const MIN_ROOM_SIDE: i32 = 5;

/// How large the floor of a room must be for the room to stay.
pub const MIN_ROOM_AREA: i32 = 6;

/// How far from a room the rooms to which it is joined are looked for.
pub const SCAN_DISTANCE: i32 = 6;

/// From how many edges on a room loses some.
pub const EDGE_THRESHOLD: usize = 4;

/// How many edges such a room loses at most.
pub const MAX_TRIM: usize = 2;

/// The map of a level on the partition `bsp`: a room within every region
/// that is not split; the small rooms are dropped; rooms that lie near each
/// other are joined by corridors, of which the rooms with many lose some;
/// and the rooms get their doors.
pub fn generate_from_bsp(
    bsp: &EntityGraph,
    size_x: u32,
    size_y: u32,
    depth: u32,
    resources: &ResourceManager,
) -> (map: GameMap)
    requires
        bsp@.wf(),
    ensures
        map.width == size_x,
        map.height == size_y,
        map.depth == depth,
        map.explored@ == Set::<Coordinate>::empty(),
        forall|c: Coordinate| #[trigger]
            map.map@.contains_key(c) ==> map.map@[c] == TileID(WALL_TILEID)
                || map.map@[c] == TileID(
                FLOOR_TILEID,
            ),
        forall|r: int, i: int|
            0 <= r < map.rooms@.len() && 0 <= i < map.rooms@[r].door_locations@.len() ==> on_wall(
                map.rooms@[r].extends,
                #[trigger] map.rooms@[r].door_locations@[i],
            ) && door_fits(map.map@, resources, map.rooms@[r].door_locations@[i]),
{
    let graph = make_rooms_from_bsp(bsp, MIN_ROOM_SIDE);
    let graph = prune_small_rooms(&graph, MIN_ROOM_AREA);
    let graph = make_connected_graph(&graph, SCAN_DISTANCE);
    let graph = prune_edges(&graph, EDGE_THRESHOLD, MAX_TRIM);
    let mut map = draw_rooms_to_map(&graph, size_x, size_y, depth);
    add_doors_to_rooms(&mut map, resources);
    map
}

/// How often a region is split at most on the way from the whole level.
pub const PARTITION_DEPTH: u32 = 4;

/// Whether the node `i` of `tree`, where it is split, is split in two
/// halves: its region was not too small, and its two children are what a
/// cut across one of its sides, within the region, leaves.
pub open spec fn cut_in_halves(tree: EntityGraphView, i: int) -> bool {
    match tree.children[i] {
        None => true,
        Some((first, second)) => !too_small_to_split(tree.nodes[i].extends) && exists|
            axis: Axis,
            point: i32,
        |
            cuts_within(tree.nodes[i].extends, axis, point as int) && (
            tree.nodes[first as int].extends,
            tree.nodes[second as int].extends,
        ) == #[trigger] halves(tree.nodes[i].extends, axis, point),
    }
}

/// Whether `tree` is a partition: every region that is split is split in
/// two halves.
pub open spec fn is_partition(tree: EntityGraphView) -> bool {
    forall|i: int| #[trigger] tree.has_node(i) ==> cut_in_halves(tree, i)
}

/// The two halves of every split region of a partition cover the region.
pub proof fn lemma_partition_is_tiled(tree: EntityGraphView)
    requires
        is_partition(tree),
    ensures
        tree.is_tiled(),
{
    assert forall|i: int| #[trigger] tree.has_node(i) implies match tree.children[i] {
        Some((first, second)) => forall|c: Coordinate|
            tree.nodes[i].extends.spec_contains_point(c)
                ==> tree.nodes[first as int].extends.spec_contains_point(
                c,
            ) || #[trigger] tree.nodes[second as int].extends.spec_contains_point(c),
        None => true,
    } by {
        assert(cut_in_halves(tree, i));
        if let Some((first, second)) = tree.children[i] {
            let (axis, point) = choose|axis: Axis, point: i32|
                cuts_within(tree.nodes[i].extends, axis, point as int) && (
                tree.nodes[first as int].extends,
                tree.nodes[second as int].extends,
            ) == #[trigger] halves(tree.nodes[i].extends, axis, point);
            assert forall|c: Coordinate|
                tree.nodes[i].extends.spec_contains_point(c) implies tree.nodes[first as int].extends.spec_contains_point(
                c,
            ) || #[trigger] tree.nodes[second as int].extends.spec_contains_point(c) by {
                lemma_halves_cover(tree.nodes[i].extends, axis, point, c);
            }
        }
    }
}

/// Whether `after` is `before` with more splits: the regions of `before`
/// are regions of `after`, and those that were split are split as they were.
pub open spec fn grown_from(before: EntityGraphView, after: EntityGraphView) -> bool {
    &&& before.nodes.len() <= after.nodes.len()
    &&& forall|i: int| #[trigger]
        before.has_node(i) ==> after.nodes[i].extends == before.nodes[i].extends && (
        before.children[i] is Some ==> after.children[i] == before.children[i])
}

/// Whether every side of every region of `tree` is a number of type `i32`.
pub open spec fn sides_fit(tree: EntityGraphView) -> bool {
    forall|i: int| #[trigger]
        tree.has_node(i) ==> fits_i32(tree.nodes[i].extends.width()) && fits_i32(
            tree.nodes[i].extends.width() - 1,
        ) && fits_i32(tree.nodes[i].extends.height()) && fits_i32(
            tree.nodes[i].extends.height() - 1,
        ) && tree.nodes[i].extends.width() >= 1 && tree.nodes[i].extends.height() >= 1
}

/// The tree after the region `parent` was split into `first` and `second`,
/// which are its last two regions then.
pub open spec fn with_split(
    tree: EntityGraphView,
    parent: int,
    first: BoxExtends,
    second: BoxExtends,
) -> EntityGraphView {
    EntityGraphView {
        nodes: tree.nodes.push(
            EntityContainerView { extends: first, entities: Seq::<usize>::empty() },
        ).push(EntityContainerView { extends: second, entities: Seq::<usize>::empty() }),
        children: tree.children.update(
            parent,
            Some((tree.nodes.len() as usize, (tree.nodes.len() + 1) as usize)),
        ).push(None).push(None),
    }
}

/// Whether the region `parent` can be split: it is not split, holds no
/// entity, and the tree can take two regions more.
pub open spec fn can_split(tree: EntityGraphView, parent: int) -> bool {
    tree.is_leaf(parent) && tree.nodes[parent].entities.len() == 0 && tree.nodes.len() + 2
        <= usize::MAX
}

/// Holds of every axis, tree and number. It marks the side that a region
/// is cut across, the tree after what came of its first half was split, and
/// the fractions used up to then.
pub open spec fn cut_then(axis: Axis, middle: EntityGraphView, between: nat) -> bool {
    true
}

/// Whether `after` and `used` are what splitting the region `parent` and
/// the regions that come of it may leave of the tree `before`, where
/// `parent` lies `depth` splits from the whole level and the fractions from
/// `next` on are left. A region at `max_depth`, a region that is too small
/// or cannot be split, and a region for which no fraction is left stay as
/// they are. Any other region is cut across one of its sides with the next
/// fraction; then what comes of its first half is split, then what comes of
/// its second half, each with the fractions that are left.
pub open spec fn branch_split(
    before: EntityGraphView,
    parent: int,
    depth: nat,
    max_depth: nat,
    fractions: Seq<u32>,
    next: nat,
    after: EntityGraphView,
    used: nat,
) -> bool
    decreases max_depth - depth,
{
    if depth >= max_depth || next >= fractions.len() || too_small_to_split(
        before.nodes[parent].extends,
    ) || !can_split(before, parent) {
        after == before && used == next
    } else {
        exists|axis: Axis, middle: EntityGraphView, between: nat| #[trigger]
            cut_then(axis, middle, between) && was_cut(
                before.nodes[parent].extends,
                axis,
                fractions[next as int],
                Ok(
                    halves(
                        before.nodes[parent].extends,
                        axis,
                        cut_point(before.nodes[parent].extends, axis, fractions[next as int]) as i32,
                    ),
                ),
            ) && branch_split(
                with_split(
                    before,
                    parent,
                    halves(
                        before.nodes[parent].extends,
                        axis,
                        cut_point(before.nodes[parent].extends, axis, fractions[next as int]) as i32,
                    ).0,
                    halves(
                        before.nodes[parent].extends,
                        axis,
                        cut_point(before.nodes[parent].extends, axis, fractions[next as int]) as i32,
                    ).1,
                ),
                before.nodes.len() as int,
                depth + 1,
                max_depth,
                fractions,
                next + 1,
                middle,
                between,
            ) && branch_split(
                middle,
                (before.nodes.len() + 1) as int,
                depth + 1,
                max_depth,
                fractions,
                between,
                after,
                used,
            )
    }
}

/// Splits the region `parent` and the regions that come of it, until a
/// region is `max_depth` splits away from the whole level, is too small, or
/// no fraction is left. Each split takes the next of `fractions`.
fn split_branch(
    tree: &mut EntityGraph,
    parent: usize,
    current_depth: u32,
    max_depth: u32,
    fractions: &Vec<u32>,
    next: &mut usize,
)
    requires
        old(tree)@.wf(),
        old(tree)@.vacant(),
        is_partition(old(tree)@),
        sides_fit(old(tree)@),
        parent < old(tree)@.nodes.len(),
    ensures
        final(tree)@.wf(),
        final(tree)@.vacant(),
        is_partition(final(tree)@),
        sides_fit(final(tree)@),
        grown_from(old(tree)@, final(tree)@),
        *old(next) <= *final(next),
        *old(next) <= fractions@.len() ==> *final(next) <= fractions@.len(),
        final(tree)@.nodes.len() == old(tree)@.nodes.len() + 2 * (*final(next) - *old(next)),
        current_depth >= max_depth || *old(next) >= fractions@.len() ==> final(tree)@ == old(tree)@,
        branch_split(
            old(tree)@,
            parent as int,
            current_depth as nat,
            max_depth as nat,
            fractions@,
            *old(next) as nat,
            final(tree)@,
            *final(next) as nat,
        ),
    decreases max_depth - current_depth,
{
    if current_depth >= max_depth || *next >= fractions.len() {
        return ;
    }
    let parent_box = tree.node(parent).extends;
    let fraction = fractions[*next];
    assert(tree@.has_node(parent as int));
    let (a, b) = match split_box(&parent_box, fraction) {
        Ok(halves) => halves,
        Err(_) => {
            proof {
                if !too_small_to_split(parent_box) {
                    let axis = choose|axis: Axis|
                        was_cut(
                            parent_box,
                            axis,
                            fraction,
                            Err::<(BoxExtends, BoxExtends), crate::error::Error>(
                                crate::error::Error::CannotSplit,
                            ),
                        );
                }
            }
            return ;
        },
    };
    let ghost axis = choose|axis: Axis| was_cut(parent_box, axis, fraction, Ok((a, b)));
    let ghost point = cut_point(parent_box, axis, fraction) as i32;
    proof {
        lemma_halves_fit(parent_box, axis, fraction);
    }
    let first = tree.node_count();
    if !tree.split(parent, a, b) {
        return ;
    }
    *next = *next + 1;
    proof {
        let before = old(tree)@;
        let after = tree@;
        assert forall|i: int| #[trigger] after.has_node(i) implies cut_in_halves(after, i) by {
            if i == parent {
                assert((after.nodes[first as int].extends, after.nodes[first + 1].extends)
                    == halves(after.nodes[i].extends, axis, point));
            } else if i < before.nodes.len() {
                assert(before.has_node(i));
                assert(cut_in_halves(before, i));
                match before.children[i] {
                    None => {},
                    Some((c, d)) => {
                        let (ax, pt) = choose|ax: Axis, pt: i32|
                            cuts_within(before.nodes[i].extends, ax, pt as int) && (
                            before.nodes[c as int].extends,
                            before.nodes[d as int].extends,
                        ) == #[trigger] halves(before.nodes[i].extends, ax, pt);
                        assert((after.nodes[c as int].extends, after.nodes[d as int].extends)
                            == halves(after.nodes[i].extends, ax, pt));
                    },
                }
            }
        }
        assert forall|i: int| #[trigger] after.has_node(i) implies fits_i32(
            after.nodes[i].extends.width(),
        ) && fits_i32(after.nodes[i].extends.width() - 1) && fits_i32(
            after.nodes[i].extends.height(),
        ) && fits_i32(after.nodes[i].extends.height() - 1) && after.nodes[i].extends.width() >= 1
            && after.nodes[i].extends.height() >= 1 by {
            if i < before.nodes.len() {
                assert(before.has_node(i));
            }
        }
        assert(grown_from(before, after));
    }
    let ghost middle = tree@;
    assert(middle == with_split(old(tree)@, parent as int, a, b));
    assert((a, b) == halves(parent_box, axis, point));
    split_branch(tree, first, current_depth + 1, max_depth, fractions, next);
    let ghost later = tree@;
    let ghost between = *next as nat;
    assert(later.has_node(first + 1)) by {
        assert(middle.has_node(first + 1));
    }
    split_branch(tree, first + 1, current_depth + 1, max_depth, fractions, next);
    proof {
        assert(cut_then(axis, later, between));
        let before = old(tree)@;
        let after = tree@;
        assert forall|i: int| #[trigger] before.has_node(i) implies after.nodes[i].extends
            == before.nodes[i].extends && (before.children[i] is Some ==> after.children[i]
            == before.children[i]) by {
            assert(middle.has_node(i));
            assert(later.has_node(i));
        }
    }
}

/// The halves of a box whose sides are numbers of type `i32` have such
/// sides too, and at least one cell along each.
proof fn lemma_halves_fit(area: BoxExtends, axis: Axis, fraction: u32)
    requires
        fits_i32(area.width()),
        fits_i32(area.width() - 1),
        fits_i32(area.height()),
        fits_i32(area.height() - 1),
        area.width() >= 1,
        area.height() >= 1,
        fits_i32(cut_point(area, axis, fraction)),
    ensures
        ({
            let (a, b) = halves(area, axis, cut_point(area, axis, fraction) as i32);
            &&& 1 <= a.width() <= area.width()
            &&& 1 <= a.height() <= area.height()
            &&& 1 <= b.width() <= area.width()
            &&& 1 <= b.height() <= area.height()
        }),
{
    let kept: int = if fraction < LEAST_MARGIN {
        LEAST_MARGIN as int
    } else if fraction > 1000 - LEAST_MARGIN {
        1000 - LEAST_MARGIN
    } else {
        fraction as int
    };
    let size = area.axis_size(axis);
    assert(0 <= kept * size / 1000 < size) by (nonlinear_arith)
        requires
            350 <= kept <= 650,
            1 <= size,
    ;
}

/// The tree with one region: a whole level of `size_x` by `size_y` cells.
pub open spec fn whole_level(size_x: u32, size_y: u32) -> EntityGraphView {
    EntityGraphView {
        nodes: seq![
            EntityContainerView {
                extends: BoxExtends {
                    top_left: Coordinate { x: 0, y: 0 },
                    bottom_right: Coordinate { x: (size_x - 1) as i32, y: (size_y - 1) as i32 },
                },
                entities: Seq::<usize>::empty(),
            },
        ],
        children: seq![None::<(usize, usize)>],
    }
}

/// A partition of a level of `size_x` by `size_y` cells: the whole level
/// is split in two, and so is each region that comes of it, `max_depth`
/// times at most in a row, as long as the region is not too small and
/// `fractions` holds a fraction for the cut. The regions come in the order
/// in which they are cut off: the two halves of a region, then what comes
/// of the first half, then what comes of the second.
pub fn binary_space_partitioning(size_x: u32, size_y: u32, max_depth: u32, fractions: &Vec<u32>) -> (tree:
    EntityGraph)
    requires
        1 <= size_x <= i32::MAX,
        1 <= size_y <= i32::MAX,
    ensures
        tree@.wf(),
        tree@.vacant(),
        is_partition(tree@),
        tree@.is_tiled(),
        tree@.nodes[0].extends == (BoxExtends {
            top_left: Coordinate { x: 0, y: 0 },
            bottom_right: Coordinate { x: (size_x - 1) as i32, y: (size_y - 1) as i32 },
        }),
        tree@.nodes.len() <= 1 + 2 * fractions@.len(),
        max_depth == 0 || fractions@.len() == 0 ==> tree@.nodes.len() == 1,
        exists|used: nat| #[trigger]
            branch_split(
                whole_level(size_x, size_y),
                0,
                0,
                max_depth as nat,
                fractions@,
                0,
                tree@,
                used,
            ),
{
    let map_box = BoxExtends {
        top_left: Coordinate { x: 0, y: 0 },
        bottom_right: Coordinate { x: (size_x - 1) as i32, y: (size_y - 1) as i32 },
    };
    let mut tree = EntityGraph::new(map_box);
    let mut next: usize = 0;
    assert(is_partition(tree@));
    assert(sides_fit(tree@));
    let ghost whole = tree@;
    assert(whole == whole_level(size_x, size_y));
    split_branch(&mut tree, 0, 0, max_depth, fractions, &mut next);
    assert(whole.has_node(0));
    proof {
        lemma_partition_is_tiled(tree@);
    }
    tree
}

/// A new level of `size_x` by `size_y` cells at `depth`: its partition, cut
/// with `fractions`, and its map, with rooms, corridors and doors, and with
/// what is to be spawned in each room.
pub fn generate_new(
    size_x: u32,
    size_y: u32,
    depth: u32,
    resources: &ResourceManager,
    fractions: &Vec<u32>,
) -> (level: (GameMap, EntityGraph))
    requires
        1 <= size_x <= i32::MAX,
        1 <= size_y <= i32::MAX,
        resources.wf(),
    ensures
        level.1@.wf(),
        level.1@.vacant(),
        is_partition(level.1@),
        level.1@.is_tiled(),
        level.1@.nodes[0].extends == (BoxExtends {
            top_left: Coordinate { x: 0, y: 0 },
            bottom_right: Coordinate { x: (size_x - 1) as i32, y: (size_y - 1) as i32 },
        }),
        level.0.width == size_x,
        level.0.height == size_y,
        level.0.depth == depth,
        level.0.explored@ == Set::<Coordinate>::empty(),
        forall|c: Coordinate| #[trigger]
            level.0.map@.contains_key(c) ==> level.0.map@[c] == TileID(WALL_TILEID)
                || level.0.map@[c] == TileID(FLOOR_TILEID),
        forall|r: int, i: int|
            0 <= r < level.0.rooms@.len() && 0 <= i < level.0.rooms@[r].door_locations@.len()
                ==> on_wall(level.0.rooms@[r].extends, #[trigger] level.0.rooms@[r].door_locations@[i])
                && door_fits(level.0.map@, resources, level.0.rooms@[r].door_locations@[i]),
{
    let bsp = binary_space_partitioning(size_x, size_y, PARTITION_DEPTH, fractions);
    let mut map = generate_from_bsp(&bsp, size_x, size_y, depth, resources);
    flood_fill_spawn_tables(&mut map, resources);
    (map, bsp)
}

} // verus!
