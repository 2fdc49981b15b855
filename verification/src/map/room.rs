//! Rooms, the entities that stand in a region of the map, and the tree of
//! regions in which a coordinate is looked up.

use vstd::prelude::*;
use super::boxextends::BoxExtends;
use super::utils::{fits_i32, Coordinate};
use crate::resources::id::RoomTemplateID;
use crate::spawning::spawnentry::ExtraSpawn;

verus! {

/// A room of the map: its walls, its doors, and what is to be spawned in it.
#[derive(Debug)]
pub struct Room {
    pub extends: BoxExtends,
    pub door_locations: Vec<Coordinate>,
    pub template: Option<RoomTemplateID>,
    /// How many rooms lie between this room and the room in which the player
    /// starts.
    pub room_depth: Option<u32>,
    pub extra_spawn: Option<ExtraSpawn>,
}

impl Room {
    /// A room within `extends` without doors and without spawns.
    pub fn new(extends: BoxExtends) -> (room: Room)
        ensures
            room.extends == extends,
            room.door_locations@ == Seq::<Coordinate>::empty(),
            room.template is None,
            room.room_depth is None,
            room.extra_spawn is None,
    {
        Room {
            extends,
            door_locations: Vec::new(),
            template: None,
            room_depth: None,
            extra_spawn: None,
        }
    }

    /// The region of the room, without entities.
    pub fn to_container(&self) -> (c: EntityContainer)
        ensures
            c@ == (EntityContainerView { extends: self.extends, entities: Seq::<usize>::empty() }),
    {
        EntityContainer::new(self.extends)
    }

    /// A copy of the room with the same doors.
    pub fn duplicate(&self) -> (room: Room)
        ensures
            room.extends == self.extends,
            room.door_locations@ == self.door_locations@,
            room.template == self.template,
            room.room_depth == self.room_depth,
            room.extra_spawn == self.extra_spawn,
    {
        let mut doors: Vec<Coordinate> = Vec::new();
        let mut i: usize = 0;
        while i < self.door_locations.len()
            invariant
                i <= self.door_locations@.len(),
                doors@ == self.door_locations@.subrange(0, i as int),
            decreases self.door_locations@.len() - i,
        {
            doors.push(self.door_locations[i]);
            assert(doors@ =~= self.door_locations@.subrange(0, i as int + 1));
            i = i + 1;
        }
        assert(doors@ =~= self.door_locations@);
        Room {
            extends: self.extends,
            door_locations: doors,
            template: self.template,
            room_depth: self.room_depth,
            extra_spawn: self.extra_spawn,
        }
    }
}

impl Clone for Room {
    fn clone(&self) -> (room: Room)
        ensures
            room.extends == self.extends,
            room.door_locations@ == self.door_locations@,
            room.template == self.template,
            room.room_depth == self.room_depth,
            room.extra_spawn == self.extra_spawn,
    {
        self.duplicate()
    }
}

/// What the choice of a room's spawns goes by.
#[derive(Debug)]
pub struct RoomGenerationData {
    pub room: EntityContainer,
    pub level_depth: u32,
    pub room_depth: u32,
}

impl RoomGenerationData {
    /// The floor of the room: its area without the walls, as an unsigned
    /// number.
    pub fn get_area(&self) -> (area: u32)
        requires
            fits_i32(self.room.extends.width() - 1),
            fits_i32(self.room.extends.width() - 2),
            fits_i32(self.room.extends.height() - 1),
            fits_i32(self.room.extends.height() - 2),
            fits_i32(self.room.extends.inner_area()),
        ensures
            area == self.room.extends.inner_area(),
    {
        let area = self.room.extends.get_inner_area();
        assert(self.room.extends.inner_area() >= 0) by (nonlinear_arith)
            requires
                self.room.extends.inner_area() == if self.room.extends.width() - 2 <= 0
                    || self.room.extends.height() - 2 <= 0 {
                    0
                } else {
                    (self.room.extends.width() - 2) * (self.room.extends.height() - 2)
                },
        ;
        area as u32
    }
}

/// What the choice of spawns knows of the quests. Nothing yet.
#[derive(Debug, Clone, Copy, PartialEq, Eq, Structural)]
pub struct QuestGenerationData {
}

/// A region of the map and the entities that stand in it, in the order in
/// which they came.
#[derive(Debug)]
pub struct EntityContainer {
    pub extends: BoxExtends,
    pub entities: Vec<usize>,
}

/// What callers see of an `EntityContainer`.
pub struct EntityContainerView {
    pub extends: BoxExtends,
    pub entities: Seq<usize>,
}

impl View for EntityContainer {
    type V = EntityContainerView;

    open spec fn view(&self) -> EntityContainerView {
        EntityContainerView { extends: self.extends, entities: self.entities@ }
    }
}

impl EntityContainer {
    /// The region `extends` without entities.
    pub fn new(extends: BoxExtends) -> (c: EntityContainer)
        ensures
            c@ == (EntityContainerView { extends, entities: Seq::<usize>::empty() }),
    {
        EntityContainer { extends, entities: Vec::new() }
    }

    /// A copy with the same view.
    pub fn duplicate(&self) -> (c: EntityContainer)
        ensures
            c@ == self@,
    {
        let mut entities: Vec<usize> = Vec::new();
        let mut i: usize = 0;
        while i < self.entities.len()
            invariant
                i <= self.entities@.len(),
                entities@ == self.entities@.subrange(0, i as int),
            decreases self.entities@.len() - i,
        {
            entities.push(self.entities[i]);
            assert(entities@ =~= self.entities@.subrange(0, i as int + 1));
            i = i + 1;
        }
        assert(entities@ =~= self.entities@);
        EntityContainer { extends: self.extends, entities }
    }
}

impl Clone for EntityContainer {
    fn clone(&self) -> (c: EntityContainer)
        ensures
            c@ == self@,
    {
        self.duplicate()
    }
}

/// `entities` without the first occurrence of `entity`.
pub open spec fn without_first(entities: Seq<usize>, entity: usize) -> Seq<usize>
    decreases entities.len(),
{
    if entities.len() == 0 {
        entities
    } else if entities[0] == entity {
        entities.drop_first()
    } else {
        seq![entities[0]] + without_first(entities.drop_first(), entity)
    }
}

/// Where `entity` first occurs at `index`, taking its first occurrence out
/// removes the item at `index`.
pub proof fn lemma_without_first_at(entities: Seq<usize>, entity: usize, index: int)
    requires
        0 <= index < entities.len(),
        entities[index] == entity,
        forall|j: int| 0 <= j < index ==> entities[j] != entity,
    ensures
        without_first(entities, entity) == entities.remove(index),
    decreases entities.len(),
{
    if index == 0 {
        assert(entities.drop_first() =~= entities.remove(0));
    } else {
        let rest = entities.drop_first();
        assert forall|j: int| 0 <= j < index - 1 implies rest[j] != entity by {
            assert(rest[j] == entities[j + 1]);
        }
        lemma_without_first_at(rest, entity, index - 1);
        assert(seq![entities[0]] + rest.remove(index - 1) =~= entities.remove(index));
    }
}

/// Every item that is left after the first occurrence of `entity` is taken
/// out was there before.
pub proof fn lemma_without_first_subset(entities: Seq<usize>, entity: usize)
    ensures
        without_first(entities, entity).len() <= entities.len(),
        forall|j: int|
            0 <= j < without_first(entities, entity).len() ==> exists|k: int|
                0 <= k < entities.len() && entities[k] == #[trigger] without_first(
                    entities,
                    entity,
                )[j],
    decreases entities.len(),
{
    if entities.len() > 0 {
        let rest = entities.drop_first();
        let left = without_first(entities, entity);
        if entities[0] == entity {
            assert forall|j: int| 0 <= j < left.len() implies exists|k: int|
                0 <= k < entities.len() && entities[k] == #[trigger] left[j] by {
                assert(entities[j + 1] == left[j]);
            }
        } else {
            lemma_without_first_subset(rest, entity);
            let inner = without_first(rest, entity);
            assert forall|j: int| 0 <= j < left.len() implies exists|k: int|
                0 <= k < entities.len() && entities[k] == #[trigger] left[j] by {
                if j == 0 {
                    assert(entities[0] == left[0]);
                } else {
                    assert(left[j] == inner[j - 1]);
                    let k = choose|k: int| 0 <= k < rest.len() && rest[k] == inner[j - 1];
                    assert(entities[k + 1] == left[j]);
                }
            }
        }
    }
}

/// Where `entity` does not occur, taking its first occurrence out changes
/// nothing.
pub proof fn lemma_without_first_absent(entities: Seq<usize>, entity: usize)
    requires
        forall|j: int| 0 <= j < entities.len() ==> entities[j] != entity,
    ensures
        without_first(entities, entity) == entities,
    decreases entities.len(),
{
    if entities.len() > 0 {
        let rest = entities.drop_first();
        assert forall|j: int| 0 <= j < rest.len() implies rest[j] != entity by {
            assert(rest[j] == entities[j + 1]);
        }
        lemma_without_first_absent(rest, entity);
        assert(seq![entities[0]] + rest =~= entities);
    }
}

/// How often `entity` occurs in `entities`.
pub open spec fn occurrences(entities: Seq<usize>, entity: usize) -> nat {
    entities.to_multiset().count(entity)
}

/// Taking the first occurrence of `entity` out takes one occurrence of it
/// away, if there was one, and none of any other entity.
pub proof fn lemma_without_first_occurrences(entities: Seq<usize>, entity: usize, other: usize)
    ensures
        occurrences(without_first(entities, entity), other) == if other == entity && occurrences(
            entities,
            entity,
        ) > 0 {
            (occurrences(entities, entity) - 1) as nat
        } else {
            occurrences(entities, other)
        },
    decreases entities.len(),
{
    broadcast use vstd::seq_lib::group_to_multiset_ensures;

    if entities.contains(entity) {
        lemma_first_occurrence(entities, entity);
        let i = choose|i: int|
            0 <= i < entities.len() && entities[i] == entity && forall|j: int|
                0 <= j < i ==> entities[j] != entity;
        lemma_without_first_at(entities, entity, i);
        vstd::seq_lib::to_multiset_remove(entities, i);
    } else {
        assert forall|j: int| 0 <= j < entities.len() implies entities[j] != entity by {
            if entities[j] == entity {
                assert(entities.contains(entity));
            }
        }
        lemma_without_first_absent(entities, entity);
    }
}

/// An entity that occurs has a first occurrence.
pub proof fn lemma_first_occurrence(entities: Seq<usize>, entity: usize)
    requires
        entities.contains(entity),
    ensures
        exists|i: int|
            0 <= i < entities.len() && entities[i] == entity && forall|j: int|
                0 <= j < i ==> entities[j] != entity,
    decreases entities.len(),
{
    if entities[0] == entity {
        assert(forall|j: int| 0 <= j < 0 ==> entities[j] != entity);
    } else {
        let rest = entities.drop_first();
        let k = choose|k: int| 0 <= k < entities.len() && entities[k] == entity;
        assert(rest[k - 1] == entity);
        lemma_first_occurrence(rest, entity);
        let i = choose|i: int|
            0 <= i < rest.len() && rest[i] == entity && forall|j: int|
                0 <= j < i ==> rest[j] != entity;
        assert(entities[i + 1] == entity);
        assert forall|j: int| 0 <= j < i + 1 implies entities[j] != entity by {
            if j > 0 {
                assert(rest[j - 1] == entities[j]);
            }
        }
    }
}

/// Putting `entity` last adds one occurrence of it, and none of any other
/// entity.
pub proof fn lemma_push_occurrences(entities: Seq<usize>, entity: usize, other: usize)
    ensures
        occurrences(entities.push(entity), other) == if other == entity {
            occurrences(entities, entity) + 1
        } else {
            occurrences(entities, other)
        },
{
    vstd::seq_lib::to_multiset_build(entities, entity);
}

/// What callers see of an `EntityGraph`: the regions, and for each region
/// the indices of the two regions into which it is split, if it is split.
pub struct EntityGraphView {
    pub nodes: Seq<EntityContainerView>,
    pub children: Seq<Option<(usize, usize)>>,
}

impl EntityGraphView {
    /// Whether `index` is a node of the tree.
    pub open spec fn has_node(self, index: int) -> bool {
        0 <= index < self.nodes.len()
    }

    /// Whether the tree is well formed: it has a root, and the two children
    /// of a node come after it.
    pub open spec fn wf(self) -> bool {
        &&& self.nodes.len() == self.children.len()
        &&& self.nodes.len() >= 1
        &&& forall|i: int| #[trigger]
            self.has_node(i) ==> match self.children[i] {
                Some((first, second)) => i < first < self.nodes.len() && i < second
                    < self.nodes.len(),
                None => true,
            }
    }

    /// Whether the node holds entities of its own: it is not split.
    pub open spec fn is_leaf(self, index: int) -> bool {
        self.has_node(index) && self.children[index] is None
    }

    /// The leaf that the lookup of `coordinate` reaches from `index`: at a
    /// split node it goes on in the first child where that child's extent
    /// contains the coordinate, and in the second child otherwise.
    pub open spec fn leaf_from(self, index: int, coordinate: Coordinate) -> int
        decreases self.nodes.len() - index,
    {
        if !self.has_node(index) {
            index
        } else {
            match self.children[index] {
                None => index,
                Some((first, second)) => {
                    if !(index < first < self.nodes.len() && index < second < self.nodes.len()) {
                        index
                    } else if self.nodes[first as int].extends.spec_contains_point(coordinate) {
                        self.leaf_from(first as int, coordinate)
                    } else {
                        self.leaf_from(second as int, coordinate)
                    }
                },
            }
        }
    }

    /// Whether the two parts of every split region cover the region.
    pub open spec fn is_tiled(self) -> bool {
        forall|i: int| #[trigger]
            self.has_node(i) ==> match self.children[i] {
                Some((first, second)) => forall|c: Coordinate|
                    self.nodes[i].extends.spec_contains_point(c)
                        ==> self.nodes[first as int].extends.spec_contains_point(
                        c,
                    ) || #[trigger] self.nodes[second as int].extends.spec_contains_point(c),
                None => true,
            }
    }

    /// The leaf in which `coordinate` is looked up.
    pub open spec fn leaf_of(self, coordinate: Coordinate) -> int {
        self.leaf_from(0, coordinate)
    }

    /// The entities that stand in the leaf of `coordinate`.
    pub open spec fn entities_at_leaf(self, coordinate: Coordinate) -> Seq<usize> {
        self.nodes[self.leaf_of(coordinate)].entities
    }

    /// The tree with the entities of `node` replaced.
    pub open spec fn with_entities(self, node: int, entities: Seq<usize>) -> EntityGraphView {
        EntityGraphView {
            nodes: self.nodes.update(
                node,
                EntityContainerView { extends: self.nodes[node].extends, entities },
            ),
            children: self.children,
        }
    }

    /// The tree after `entity` left the leaf of `coordinate`: its first
    /// occurrence there is gone.
    pub open spec fn without_entity(self, coordinate: Coordinate, entity: usize) -> EntityGraphView {
        self.with_entities(
            self.leaf_of(coordinate),
            without_first(self.entities_at_leaf(coordinate), entity),
        )
    }

    /// The tree after `entity` came to the leaf of `coordinate`: it stands
    /// last there.
    pub open spec fn with_entity(self, coordinate: Coordinate, entity: usize) -> EntityGraphView {
        self.with_entities(self.leaf_of(coordinate), self.entities_at_leaf(coordinate).push(entity))
    }

    /// Whether no region holds an entity.
    pub open spec fn vacant(self) -> bool {
        forall|i: int| #[trigger] self.has_node(i) ==> self.nodes[i].entities.len() == 0
    }

    /// Whether every entity of every region is below `bound`.
    pub open spec fn entities_below(self, bound: nat) -> bool {
        forall|i: int, j: int|
            self.has_node(i) && 0 <= j < self.nodes[i].entities.len() ==> (
            #[trigger] self.nodes[i].entities[j]) < bound
    }
}

/// The lookup ends in a leaf, and where the entities of a node change, the
/// lookup does not.
pub proof fn lemma_leaf_from(tree: EntityGraphView, index: int, coordinate: Coordinate)
    requires
        tree.wf(),
        tree.has_node(index),
    ensures
        tree.is_leaf(tree.leaf_from(index, coordinate)),
        index <= tree.leaf_from(index, coordinate),
    decreases tree.nodes.len() - index,
{
    match tree.children[index] {
        None => {},
        Some((first, second)) => {
            assert(tree.has_node(index));
            if tree.nodes[first as int].extends.spec_contains_point(coordinate) {
                assert(tree.has_node(first as int));
                lemma_leaf_from(tree, first as int, coordinate);
            } else {
                assert(tree.has_node(second as int));
                lemma_leaf_from(tree, second as int, coordinate);
            }
        },
    }
}

/// Two trees of the same shape whose regions have the same extents look
/// every coordinate up in the same leaf.
pub proof fn lemma_same_shape_same_leaf(
    a: EntityGraphView,
    b: EntityGraphView,
    index: int,
    coordinate: Coordinate,
)
    requires
        a.children == b.children,
        a.nodes.len() == b.nodes.len(),
        forall|i: int| 0 <= i < a.nodes.len() ==> a.nodes[i].extends == b.nodes[i].extends,
    ensures
        a.leaf_from(index, coordinate) == b.leaf_from(index, coordinate),
    decreases a.nodes.len() - index,
{
    if a.has_node(index) {
        match a.children[index] {
            None => {},
            Some((first, second)) => {
                if index < first < a.nodes.len() && index < second < a.nodes.len() {
                    lemma_same_shape_same_leaf(a, b, first as int, coordinate);
                    lemma_same_shape_same_leaf(a, b, second as int, coordinate);
                }
            },
        }
    }
}

/// Replacing the entities of a node keeps the tree well formed and every
/// lookup where it was.
pub proof fn lemma_with_entities_wf(tree: EntityGraphView, node: int, entities: Seq<usize>)
    requires
        tree.wf(),
        tree.has_node(node),
    ensures
        tree.with_entities(node, entities).wf(),
        forall|c: Coordinate| #[trigger]
            tree.with_entities(node, entities).leaf_of(c) == tree.leaf_of(c),
{
    let after = tree.with_entities(node, entities);
    assert forall|i: int| #[trigger] after.has_node(i) implies match after.children[i] {
        Some((first, second)) => i < first < after.nodes.len() && i < second < after.nodes.len(),
        None => true,
    } by {
        assert(tree.has_node(i));
    }
    assert forall|c: Coordinate| #[trigger] after.leaf_of(c) == tree.leaf_of(c) by {
        lemma_same_shape_same_leaf(after, tree, 0, c);
    }
}

/// A binary tree of regions. The root is the whole map; a region is either
/// split into two regions or holds the entities that stand in it.
#[derive(Debug)]
pub struct EntityGraph {
    nodes: Vec<EntityContainer>,
    children: Vec<Option<(usize, usize)>>,
}

impl View for EntityGraph {
    type V = EntityGraphView;

    closed spec fn view(&self) -> EntityGraphView {
        EntityGraphView {
            nodes: Seq::new(self.nodes@.len(), |i: int| self.nodes@[i]@),
            children: self.children@,
        }
    }
}

impl EntityGraph {
    /// The tree with the one region `extends`.
    pub fn new(extends: BoxExtends) -> (tree: EntityGraph)
        ensures
            tree@.wf(),
            tree@.vacant(),
            tree@.nodes == seq![EntityContainerView { extends, entities: Seq::<usize>::empty() }],
            tree@.children == seq![None::<(usize, usize)>],
    {
        let mut nodes: Vec<EntityContainer> = Vec::new();
        nodes.push(EntityContainer::new(extends));
        let mut children: Vec<Option<(usize, usize)>> = Vec::new();
        children.push(None);
        let tree = EntityGraph { nodes, children };
        assert(tree@.nodes =~= seq![
            EntityContainerView { extends, entities: Seq::<usize>::empty() },
        ]);
        assert(tree@.children =~= seq![None::<(usize, usize)>]);
        tree
    }

    /// The number of regions.
    pub fn node_count(&self) -> (n: usize)
        ensures
            n == self@.nodes.len(),
    {
        self.nodes.len()
    }

    /// Whether `index` is a region that is not split.
    pub fn is_leaf(&self, index: usize) -> (b: bool)
        requires
            self@.wf(),
        ensures
            b == self@.is_leaf(index as int),
    {
        index < self.nodes.len() && self.children[index].is_none()
    }

    /// Splits the leaf `parent` into the two regions `first` and `second`,
    /// which become the last two nodes of the tree. Nothing happens, and
    /// `false` is returned, where `parent` is not a leaf without entities or
    /// the tree cannot grow.
    pub fn split(&mut self, parent: usize, first: BoxExtends, second: BoxExtends) -> (done: bool)
        requires
            old(self)@.wf(),
        ensures
            final(self)@.wf(),
            done == (old(self)@.is_leaf(parent as int) && old(self)@.nodes[parent as int].entities.len()
                == 0 && old(self)@.nodes.len() + 2 <= usize::MAX),
            !done ==> final(self)@ == old(self)@,
            done ==> final(self)@.nodes == old(self)@.nodes.push(
                EntityContainerView { extends: first, entities: Seq::<usize>::empty() },
            ).push(EntityContainerView { extends: second, entities: Seq::<usize>::empty() }),
            done ==> final(self)@.children == old(self)@.children.update(
                parent as int,
                Some((old(self)@.nodes.len() as usize, (old(self)@.nodes.len() + 1) as usize)),
            ).push(None).push(None),
            old(self)@.vacant() ==> final(self)@.vacant(),
    {
        if parent >= self.nodes.len() || self.children[parent].is_some()
            || self.nodes[parent].entities.len() != 0 || self.nodes.len() > usize::MAX - 2 {
            return false;
        }
        let first_index: usize = self.nodes.len();
        let second_index: usize = first_index + 1;
        self.nodes.push(EntityContainer::new(first));
        self.nodes.push(EntityContainer::new(second));
        self.children[parent] = Some((first_index, second_index));
        self.children.push(None);
        self.children.push(None);
        proof {
            assert(self@.nodes =~= old(self)@.nodes.push(
                EntityContainerView { extends: first, entities: Seq::<usize>::empty() },
            ).push(EntityContainerView { extends: second, entities: Seq::<usize>::empty() }));
            assert forall|i: int| #[trigger] self@.has_node(i) implies match self@.children[i] {
                Some((a, b)) => i < a < self@.nodes.len() && i < b < self@.nodes.len(),
                None => true,
            } by {
                if i < old(self)@.nodes.len() && i != parent {
                    assert(old(self)@.has_node(i));
                }
            }
            if old(self)@.vacant() {
                assert forall|i: int| #[trigger] self@.has_node(i) implies self@.nodes[i].entities.len()
                    == 0 by {
                    if i < old(self)@.nodes.len() {
                        assert(old(self)@.has_node(i));
                    }
                }
            }
        }
        true
    }

    /// The leaf in which `coordinate` is looked up: from the root down, into
    /// the first child where its extent contains the coordinate, into the
    /// second child otherwise.
    pub fn region_for(&self, coordinate: Coordinate) -> (leaf: usize)
        requires
            self@.wf(),
        ensures
            leaf == self@.leaf_of(coordinate),
            self@.is_leaf(leaf as int),
    {
        let mut index: usize = 0;
        proof {
            assert(self@.has_node(0));
            lemma_leaf_from(self@, 0, coordinate);
        }
        loop
            invariant
                self@.wf(),
                self@.has_node(index as int),
                self@.leaf_from(index as int, coordinate) == self@.leaf_of(coordinate),
                self@.is_leaf(self@.leaf_of(coordinate)),
            ensures
                index == self@.leaf_of(coordinate),
            decreases self@.nodes.len() - index,
        {
            match self.children[index] {
                None => {
                    break ;
                },
                Some((first, second)) => {
                    assert(self@.has_node(first as int) && self@.has_node(second as int));
                    if self.nodes[first].extends.contains_point(coordinate) {
                        index = first;
                    } else {
                        index = second;
                    }
                },
            }
        }
        index
    }

    /// The region at `index`.
    pub fn node(&self, index: usize) -> (container: &EntityContainer)
        requires
            index < self@.nodes.len(),
        ensures
            container@ == self@.nodes[index as int],
    {
        &self.nodes[index]
    }

    /// The two regions into which the region at `index` is split, if it is
    /// split.
    pub fn children_of(&self, index: usize) -> (children: Option<(usize, usize)>)
        requires
            self@.wf(),
            index < self@.nodes.len(),
        ensures
            children == self@.children[index as int],
    {
        self.children[index]
    }

    /// The region in whose leaf `coordinate` is looked up.
    pub fn container_at(&self, coordinate: Coordinate) -> (container: &EntityContainer)
        requires
            self@.wf(),
        ensures
            container@ == self@.nodes[self@.leaf_of(coordinate)],
    {
        let leaf = self.region_for(coordinate);
        &self.nodes[leaf]
    }

    /// Takes the first occurrence of `entity` out of the leaf of
    /// `coordinate`, if it stands there.
    pub fn remove_entity_at(&mut self, coordinate: Coordinate, entity: usize)
        requires
            old(self)@.wf(),
        ensures
            final(self)@ == old(self)@.without_entity(coordinate, entity),
            final(self)@.wf(),
    {
        let leaf = self.region_for(coordinate);
        let mut i: usize = 0;
        let ghost before = self.nodes@[leaf as int].entities@;
        while i < self.nodes[leaf].entities.len()
            invariant
                leaf < self.nodes@.len(),
                *self == *old(self),
                old(self)@.wf(),
                leaf == old(self)@.leaf_of(coordinate),
                before == self.nodes@[leaf as int].entities@,
                i <= before.len(),
                forall|j: int| 0 <= j < i ==> before[j] != entity,
            decreases before.len() - i,
        {
            if self.nodes[leaf].entities[i] == entity {
                self.nodes[leaf].entities.remove(i);
                proof {
                    lemma_without_first_at(before, entity, i as int);
                    assert(self@.nodes =~= old(self)@.without_entity(coordinate, entity).nodes);
                    lemma_with_entities_wf(old(self)@, leaf as int, before.remove(i as int));
                }
                return ;
            }
            i = i + 1;
        }
        proof {
            lemma_without_first_absent(before, entity);
            assert(self@.nodes =~= old(self)@.without_entity(coordinate, entity).nodes);
            lemma_with_entities_wf(old(self)@, leaf as int, before);
        }
    }

    /// Puts `entity` last into the leaf of `coordinate`.
    pub fn add_entity_at(&mut self, coordinate: Coordinate, entity: usize)
        requires
            old(self)@.wf(),
        ensures
            final(self)@ == old(self)@.with_entity(coordinate, entity),
            final(self)@.wf(),
    {
        let leaf = self.region_for(coordinate);
        self.nodes[leaf].entities.push(entity);
        proof {
            assert(self@.nodes =~= old(self)@.with_entity(coordinate, entity).nodes);
            lemma_with_entities_wf(
                old(self)@,
                leaf as int,
                old(self)@.entities_at_leaf(coordinate).push(entity),
            );
        }
    }
}

} // verus!
