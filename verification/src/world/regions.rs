//! Where the entities stand: what the regions of a consistent world say of
//! an entity and its position.

use vstd::prelude::*;
use super::WorldView;
use crate::map::room::{lemma_leaf_from, EntityGraphView};
use crate::map::utils::Coordinate;

verus! {

/// In a tree whose split regions are covered by their two parts, every
/// coordinate of the root lies in the region in which it is looked up.
pub proof fn lemma_leaf_contains(tree: EntityGraphView, index: int, coordinate: Coordinate)
    requires
        tree.wf(),
        tree.has_node(index),
        tree.nodes[index].extends.spec_contains_point(coordinate),
        tree.is_tiled(),
    ensures
        tree.nodes[tree.leaf_from(index, coordinate)].extends.spec_contains_point(coordinate),
    decreases tree.nodes.len() - index,
{
    match tree.children[index] {
        None => {},
        Some((first, second)) => {
            assert(tree.has_node(index));
            if tree.nodes[first as int].extends.spec_contains_point(coordinate) {
                assert(tree.has_node(first as int));
                lemma_leaf_contains(tree, first as int, coordinate);
            } else {
                assert(tree.nodes[second as int].extends.spec_contains_point(coordinate));
                assert(tree.has_node(second as int));
                lemma_leaf_contains(tree, second as int, coordinate);
            }
        },
    }
}

/// In a consistent world on regions whose parts cover them, an entity
/// whose position lies on the map stands exactly once in the region in
/// which its position is looked up, and in no other; and the extent of that
/// region contains its position.
pub proof fn lemma_stands_in_its_region(world: WorldView, entity: usize)
    requires
        world.wf(),
        world.spatially_consistent(),
        world.bsp.is_tiled(),
        world.position(entity) is Some,
        world.bsp.nodes[0].extends.spec_contains_point(world.position(entity)->0),
    ensures
        world.bsp.is_leaf(world.bsp.leaf_of(world.position(entity)->0)),
        world.bsp.nodes[world.bsp.leaf_of(world.position(entity)->0)].extends.spec_contains_point(
            world.position(entity)->0,
        ),
        forall|node: int|
            world.bsp.has_node(node) ==> #[trigger] world.occurrences_in(node, entity) == if node
                == world.bsp.leaf_of(world.position(entity)->0) {
                1nat
            } else {
                0nat
            },
{
    let c = world.position(entity)->0;
    assert(world.bsp.has_node(0));
    lemma_leaf_contains(world.bsp, 0, c);
    lemma_leaf_from(world.bsp, 0, c);
}

} // verus!
