//! The world: every entity's components, kept in one column per component
//! type, and the spatial index that says which entities stand in which
//! region of the map.

pub mod regions;

use vstd::prelude::*;
use crate::component::tags::Player;
use crate::component::{
    lemma_index_injective, Component, ComponentType, ComponentView, Position, COMPONENT_TYPES,
};
use crate::error::Error;
use crate::map::room::{
    lemma_leaf_from, lemma_push_occurrences, lemma_with_entities_wf,
    lemma_without_first_occurrences, lemma_without_first_subset, without_first, EntityContainer,
    EntityContainerView, EntityGraph, EntityGraphView, Room,
};
use crate::map::tile::{Los, Passable};
use crate::map::utils::Coordinate;

verus! {

/// What callers see of a `World`.
pub struct WorldView {
    /// The number of entities ever created. Ids run from 0 to below it.
    pub entity_count: nat,
    /// For each component type that ever was inserted, its column: one slot
    /// per entity.
    pub columns: Map<ComponentType, Seq<Option<ComponentView>>>,
    /// The tree of regions with the entities that stand in each.
    pub bsp: EntityGraphView,
    /// The entity that the player steers, once one is marked.
    pub player: Option<usize>,
}

/// The first item of `items` for which `pred` holds.
pub open spec fn first_matching(items: Seq<usize>, pred: spec_fn(usize) -> bool) -> Option<usize>
    decreases items.len(),
{
    if items.len() == 0 {
        None
    } else if pred(items[0]) {
        Some(items[0])
    } else {
        first_matching(items.drop_first(), pred)
    }
}

impl WorldView {
    /// Whether every column has one slot per entity, and every slot of a
    /// column holds a component of the column's type or nothing.
    pub open spec fn columns_wf(self) -> bool {
        forall|k: ComponentType| #[trigger]
            self.columns.contains_key(k) ==> {
                &&& self.columns[k].len() == self.entity_count
                &&& forall|e: int|
                    0 <= e < self.entity_count ==> match #[trigger] self.columns[k][e] {
                        Some(c) => c.component_type() == k,
                        None => true,
                    }
            }
    }

    /// Whether the world is well formed: the columns are, the tree of regions
    /// is, the regions hold ids of entities only, and the player, if there
    /// is one, is an entity.
    pub open spec fn wf(self) -> bool {
        &&& self.columns_wf()
        &&& self.bsp.wf()
        &&& self.bsp.entities_below(self.entity_count)
        &&& match self.player {
            Some(p) => p < self.entity_count && self.columns.contains_key(ComponentType::Player),
            None => true,
        }
    }

    /// The world with `component` in the slot that `entity` has in the
    /// column of `kind`.
    pub open spec fn with_slot(self, kind: ComponentType, entity: usize, component: ComponentView)
        -> WorldView {
        WorldView {
            columns: self.columns.insert(
                kind,
                self.columns[kind].update(entity as int, Some(component)),
            ),
            ..self
        }
    }

    /// The component of type `kind` that `entity` has, if it has one.
    pub open spec fn component(self, kind: ComponentType, entity: usize) -> Option<ComponentView> {
        if self.columns.contains_key(kind) && entity < self.columns[kind].len() {
            self.columns[kind][entity as int]
        } else {
            None
        }
    }

    /// Whether `entity` has a component of type `kind`.
    pub open spec fn has(self, kind: ComponentType, entity: usize) -> bool {
        self.component(kind, entity) is Some
    }

    /// Where `entity` stands, if it has a position.
    pub open spec fn position(self, entity: usize) -> Option<Coordinate> {
        match self.component(ComponentType::Position, entity) {
            Some(ComponentView::Position(p)) => Some(p.0),
            _ => None,
        }
    }

    /// The column of `kind`, or a column of empty slots where none exists.
    pub open spec fn column_or_empty(self, kind: ComponentType) -> Seq<Option<ComponentView>> {
        if self.columns.contains_key(kind) {
            self.columns[kind]
        } else {
            Seq::new(self.entity_count, |e: int| None)
        }
    }

    /// The world after one more entity was created: every column has one
    /// more, empty slot.
    pub open spec fn created(self) -> WorldView {
        WorldView {
            entity_count: self.entity_count + 1,
            columns: Map::new(
                |k: ComponentType| self.columns.contains_key(k),
                |k: ComponentType| self.columns[k].push(None),
            ),
            ..self
        }
    }

    /// The world after `entity` got `component`: the column of its type,
    /// created where it was missing, holds it in the entity's slot.
    pub open spec fn with_component(self, entity: usize, component: ComponentView) -> WorldView {
        WorldView {
            columns: self.columns.insert(
                component.component_type(),
                self.column_or_empty(component.component_type()).update(
                    entity as int,
                    Some(component),
                ),
            ),
            ..self
        }
    }

    /// The world after `entity` lost its component of type `kind`.
    pub open spec fn without_component(self, kind: ComponentType, entity: usize) -> WorldView {
        WorldView {
            columns: self.columns.insert(kind, self.columns[kind].update(entity as int, None)),
            ..self
        }
    }

    /// The world after `entity` lost all of its components. Its id stays
    /// taken, and the regions keep it.
    pub open spec fn tombstoned(self, entity: usize) -> WorldView {
        WorldView {
            columns: Map::new(
                |k: ComponentType| self.columns.contains_key(k),
                |k: ComponentType| self.columns[k].update(entity as int, None),
            ),
            ..self
        }
    }

    /// The world after `entity` moved to `destination`: it left the region
    /// of its position, stands last in the region of `destination`, and its
    /// position is `destination`. An entity without a position stays out of
    /// the regions, and the world is as before.
    pub open spec fn relocated(self, entity: usize, destination: Coordinate) -> WorldView {
        match self.position(entity) {
            None => self,
            Some(origin) => WorldView {
                bsp: self.bsp.without_entity(origin, entity).with_entity(destination, entity),
                columns: self.columns.insert(
                    ComponentType::Position,
                    self.columns[ComponentType::Position].update(
                        entity as int,
                        Some(ComponentView::Position(Position(destination))),
                    ),
                ),
                ..self
            },
        }
    }

    /// Whether the two worlds have the same entities, the same regions, and
    /// the same positions.
    pub open spec fn same_standing(self, other: WorldView) -> bool {
        &&& self.entity_count == other.entity_count
        &&& self.bsp == other.bsp
        &&& self.columns.contains_key(ComponentType::Position) == other.columns.contains_key(
            ComponentType::Position,
        )
        &&& self.columns.contains_key(ComponentType::Position)
            ==> self.columns[ComponentType::Position] == other.columns[ComponentType::Position]
    }

    /// The world after `entity` was placed at `position`.
    pub open spec fn placed(self, entity: usize, position: Position) -> WorldView {
        self.with_component(entity, ComponentView::Position(position)).relocated(entity, position.0)
    }

    /// The world after `entity` was marked as the player: the player before
    /// it lost the mark.
    pub open spec fn marked(self, entity: usize) -> WorldView {
        let cleared = match self.player {
            Some(p) => self.without_component(ComponentType::Player, p),
            None => self,
        };
        WorldView {
            player: Some(entity),
            ..cleared.with_component(entity, ComponentView::Player(Player))
        }
    }

    /// Whether `entity` stands at `coordinate`.
    pub open spec fn stands_at(self, entity: usize, coordinate: Coordinate) -> bool {
        self.position(entity) == Some(coordinate)
    }

    /// The entities that stand at `coordinate`: those of its region whose
    /// position it is, in the order of the region.
    pub open spec fn entities_at(self, coordinate: Coordinate) -> Seq<usize> {
        self.bsp.entities_at_leaf(coordinate).filter(|e: usize| self.stands_at(e, coordinate))
    }

    /// Whether nothing can walk through `entity`.
    pub open spec fn blocks(self, entity: usize) -> bool {
        self.component(ComponentType::Collision, entity) matches Some(ComponentView::Collision(c))
            && c.0 == Passable::Impassable
    }

    /// Whether nothing can see through `entity`.
    pub open spec fn blocks_sight(self, entity: usize) -> bool {
        self.component(ComponentType::SightBlocking, entity) matches Some(
            ComponentView::SightBlocking(s),
        ) && s.0 == Los::Block
    }

    /// The first entity at `coordinate` through which nothing can walk.
    pub open spec fn blocking_entity(self, coordinate: Coordinate) -> Option<usize> {
        first_matching(self.entities_at(coordinate), |e: usize| self.blocks(e))
    }

    /// The first entity at `coordinate` through which nothing can see.
    pub open spec fn sight_blocking_entity(self, coordinate: Coordinate) -> Option<usize> {
        first_matching(self.entities_at(coordinate), |e: usize| self.blocks_sight(e))
    }

    /// Whether an entity at `coordinate` is a hazard.
    pub open spec fn has_hazard(self, coordinate: Coordinate) -> bool {
        first_matching(
            self.entities_at(coordinate),
            |e: usize| self.has(ComponentType::Hazard, e),
        ) is Some
    }

    /// How often `entity` occurs in the region `node`.
    pub open spec fn occurrences_in(self, node: int, entity: usize) -> nat {
        self.bsp.nodes[node].entities.to_multiset().count(entity)
    }

    /// Whether every entity with a position stands exactly once in the
    /// regions, and that in the region in which its position is looked up.
    pub open spec fn spatially_consistent(self) -> bool {
        forall|e: usize, node: int|
            self.position(e) is Some && self.bsp.has_node(node) ==> #[trigger] self.occurrences_in(
                node,
                e,
            ) == if node == self.bsp.leaf_of(self.position(e)->0) {
                1nat
            } else {
                0nat
            }
    }

    /// Whether `entity` stands in no region.
    pub open spec fn unindexed(self, entity: usize) -> bool {
        forall|node: int|
            self.bsp.has_node(node) ==> #[trigger] self.occurrences_in(node, entity) == 0
    }
}

/// One column of the store: whether it was created, and its slots.
#[derive(Debug)]
struct ComponentVec {
    exists: bool,
    slots: Vec<Option<Component>>,
}

/// The state of the game: the entities, their components, and the regions in
/// which they stand.
#[derive(Debug)]
pub struct World {
    entity_count: usize,
    component_vecs: Vec<ComponentVec>,
    bsp: EntityGraph,
    player: Option<usize>,
}

/// What callers see of the slots of a column.
pub open spec fn view_slots(slots: Seq<Option<Component>>) -> Seq<Option<ComponentView>> {
    Seq::new(
        slots.len(),
        |i: int|
            match slots[i] {
                Some(c) => Some(c@),
                None => None,
            },
    )
}

impl View for World {
    type V = WorldView;

    closed spec fn view(&self) -> WorldView {
        WorldView {
            entity_count: self.entity_count as nat,
            columns: Map::new(
                |k: ComponentType| self.component_vecs@[k.spec_index() as int].exists,
                |k: ComponentType| view_slots(self.component_vecs@[k.spec_index() as int].slots@),
            ),
            bsp: self.bsp@,
            player: self.player,
        }
    }
}

impl World {
    /// Whether the world is well formed.
    pub closed spec fn wf(&self) -> bool {
        &&& self.component_vecs@.len() == COMPONENT_TYPES
        &&& self@.wf()
    }

    /// A well-formed world has a well-formed view, and as many entities as a
    /// `usize` can count.
    pub proof fn lemma_wf(&self)
        requires
            self.wf(),
        ensures
            self@.wf(),
            self@.entity_count <= usize::MAX,
    {
    }

    /// The world without entities on the regions of `bsp`.
    pub fn new_with(bsp: EntityGraph) -> (world: World)
        requires
            bsp@.wf(),
            bsp@.vacant(),
        ensures
            world.wf(),
            world@ == (WorldView {
                entity_count: 0,
                columns: Map::<ComponentType, Seq<Option<ComponentView>>>::empty(),
                bsp: bsp@,
                player: None,
            }),
    {
        let mut component_vecs: Vec<ComponentVec> = Vec::new();
        let mut i: usize = 0;
        while i < COMPONENT_TYPES
            invariant
                i <= COMPONENT_TYPES,
                component_vecs@.len() == i,
                forall|j: int| 0 <= j < i ==> !(#[trigger] component_vecs@[j]).exists,
            decreases COMPONENT_TYPES - i,
        {
            component_vecs.push(ComponentVec { exists: false, slots: Vec::new() });
            i = i + 1;
        }
        let world = World { entity_count: 0, component_vecs, bsp, player: None };
        proof {
            assert forall|k: ComponentType| !world@.columns.contains_key(k) by {
                lemma_index_injective(k, k);
            }
            assert(world@.columns =~= Map::<ComponentType, Seq<Option<ComponentView>>>::empty());
            assert forall|a: int, b: int|
                world@.bsp.has_node(a) && 0 <= b < world@.bsp.nodes[a].entities.len() implies (
            #[trigger] world@.bsp.nodes[a].entities[b]) < 0 by {
                assert(world@.bsp.has_node(a));
            }
        }
        world
    }

    /// The number of entities ever created.
    pub fn entity_count(&self) -> (n: usize)
        ensures
            n == self@.entity_count,
    {
        self.entity_count
    }

    /// Creates an entity: the next id, with an empty slot in every column.
    pub fn new_entity(&mut self) -> (entity: usize)
        requires
            old(self).wf(),
            old(self)@.entity_count < usize::MAX,
        ensures
            final(self).wf(),
            entity == old(self)@.entity_count,
            final(self)@ == old(self)@.created(),
    {
        let mut i: usize = 0;
        while i < COMPONENT_TYPES
            invariant
                i <= COMPONENT_TYPES,
                self.component_vecs@.len() == COMPONENT_TYPES,
                self.entity_count == old(self).entity_count,
                self.bsp == old(self).bsp,
                self.player == old(self).player,
                forall|j: int|
                    0 <= j < COMPONENT_TYPES
                        ==> (#[trigger] self.component_vecs@[j]).exists == old(self).component_vecs@[j].exists,
                forall|j: int|
                    0 <= j < i && old(self).component_vecs@[j].exists ==> (
                    #[trigger] self.component_vecs@[j]).slots@ == old(self).component_vecs@[j].slots@.push(None),
                forall|j: int|
                    i <= j < COMPONENT_TYPES
                        ==> (#[trigger] self.component_vecs@[j]).slots@ == old(self).component_vecs@[j].slots@,
            decreases COMPONENT_TYPES - i,
        {
            if self.component_vecs[i].exists {
                self.component_vecs[i].slots.push(None);
            }
            i = i + 1;
        }
        let entity_id = self.entity_count;
        self.entity_count += 1;
        proof {
            let before = old(self)@;
            let after = self@;
            assert forall|k: ComponentType| #[trigger]
                before.columns.contains_key(k) implies after.columns[k]
                == before.columns[k].push(None) by {
                lemma_index_injective(k, k);
                assert(after.columns[k] =~= before.columns[k].push(None));
            }
            assert forall|k: ComponentType|
                after.columns.contains_key(k) == before.columns.contains_key(k) by {
                lemma_index_injective(k, k);
            }
            assert(after.columns =~= before.created().columns);
            lemma_created_wf(before);
        }
        entity_id
    }

    /// Takes every component from `entity`. Its id stays taken, and the
    /// regions keep it. Fails where `entity` was never created.
    pub fn remove_entity(&mut self, entity: usize) -> (r: Result<(), Error>)
        requires
            old(self).wf(),
        ensures
            final(self).wf(),
            entity >= old(self)@.entity_count ==> r == Err::<(), Error>(Error::OutOfBounds)
                && final(self)@ == old(self)@,
            entity < old(self)@.entity_count ==> r is Ok && final(self)@ == old(self)@.tombstoned(
                entity,
            ),
    {
        if entity >= self.entity_count {
            return Err(Error::OutOfBounds);
        }
        let mut i: usize = 0;
        while i < COMPONENT_TYPES
            invariant
                i <= COMPONENT_TYPES,
                old(self).wf(),
                entity < self.entity_count,
                self.component_vecs@.len() == COMPONENT_TYPES,
                self.entity_count == old(self).entity_count,
                self.bsp == old(self).bsp,
                self.player == old(self).player,
                forall|j: int|
                    0 <= j < COMPONENT_TYPES
                        ==> (#[trigger] self.component_vecs@[j]).exists == old(self).component_vecs@[j].exists,
                forall|j: int|
                    0 <= j < i && old(self).component_vecs@[j].exists ==> (
                    #[trigger] self.component_vecs@[j]).slots@ == old(self).component_vecs@[j].slots@.update(entity as int, None),
                forall|j: int|
                    i <= j < COMPONENT_TYPES
                        ==> (#[trigger] self.component_vecs@[j]).slots@ == old(self).component_vecs@[j].slots@,
            decreases COMPONENT_TYPES - i,
        {
            if self.component_vecs[i].exists {
                proof {
                    lemma_column_of_index(*old(self), i as int);
                }
                self.component_vecs[i].slots[entity] = None;
            }
            i = i + 1;
        }
        proof {
            let before = old(self)@;
            let after = self@;
            assert forall|k: ComponentType| #[trigger]
                before.columns.contains_key(k) implies after.columns[k]
                == before.columns[k].update(entity as int, None) by {
                lemma_index_injective(k, k);
                assert(after.columns[k] =~= before.columns[k].update(entity as int, None));
            }
            assert forall|k: ComponentType|
                after.columns.contains_key(k) == before.columns.contains_key(k) by {
                lemma_index_injective(k, k);
            }
            assert(after.columns =~= before.tombstoned(entity).columns);
            lemma_tombstoned_wf(before, entity);
        }
        Ok(())
    }

    /// Gives `entity` the component, in place of the one of its type that it
    /// may have had. The first component of a type creates the column of the
    /// type, with an empty slot for every entity. Fails where `entity` was
    /// never created.
    ///
    /// A position that is set here does not reach the regions: positions are
    /// placed with `add_position` and changed with `update_position`.
    pub fn add_component(&mut self, entity: usize, component: Component) -> (r: Result<(), Error>)
        requires
            old(self).wf(),
        ensures
            final(self).wf(),
            entity >= old(self)@.entity_count ==> r == Err::<(), Error>(Error::OutOfBounds)
                && final(self)@ == old(self)@,
            entity < old(self)@.entity_count ==> r is Ok
                && final(self)@ == old(self)@.with_component(
                entity,
                component@,
            ),
    {
        if entity >= self.entity_count {
            return Err(Error::OutOfBounds);
        }
        let kind = component.get_type();
        let index = kind.index();
        if !self.component_vecs[index].exists {
            self.add_new_component_type(kind);
        }
        let ghost middle = self@;
        proof {
            assert(self@.columns.contains_key(kind));
            lemma_column_of_index(*self, index as int);
        }
        self.component_vecs[index].slots[entity] = Some(component);
        proof {
            let before = old(self)@;
            let after = self@;
            assert forall|k: ComponentType| k != kind implies after.columns.contains_key(k)
                == middle.columns.contains_key(k)
                    && (middle.columns.contains_key(k) ==> after.columns[k]
                == middle.columns[k]) by {
                lemma_index_injective(k, kind);
            }
            assert(after.columns[kind] =~= middle.columns[kind].update(
                entity as int,
                Some(component@),
            ));
            assert(after.columns =~= before.with_component(entity, component@).columns);
            lemma_with_component_wf(before, entity, component@);
        }
        Ok(())
    }

    /// Creates the column for `kind` with an empty slot for every entity.
    fn add_new_component_type(&mut self, kind: ComponentType)
        requires
            old(self).wf(),
            !old(self)@.columns.contains_key(kind),
        ensures
            final(self).wf(),
            final(self)@ == (WorldView {
                columns: old(self)@.columns.insert(kind, old(self)@.column_or_empty(kind)),
                ..old(self)@
            }),
    {
        let index = kind.index();
        let mut new_component_vec: Vec<Option<Component>> = Vec::new();
        let mut n: usize = 0;
        while n < self.entity_count
            invariant
                n <= self.entity_count,
                new_component_vec@.len() == n,
                forall|j: int| 0 <= j < n ==> new_component_vec@[j] is None,
            decreases self.entity_count - n,
        {
            new_component_vec.push(None);
            n = n + 1;
        }
        self.component_vecs[index] = ComponentVec { exists: true, slots: new_component_vec };
        proof {
            let before = old(self)@;
            let after = self@;
            assert(view_slots(new_component_vec@) =~= before.column_or_empty(kind));
            assert forall|k: ComponentType| k != kind implies after.columns.contains_key(k)
                == before.columns.contains_key(k)
                    && (before.columns.contains_key(k) ==> after.columns[k]
                == before.columns[k]) by {
                lemma_index_injective(k, kind);
            }
            assert(after.columns =~= before.columns.insert(kind, before.column_or_empty(kind)));
            assert forall|k: ComponentType| #[trigger]
                after.columns.contains_key(k) implies after.columns[k].len() == after.entity_count
                && forall|e: int|
                0 <= e < after.entity_count ==> match #[trigger] after.columns[k][e] {
                    Some(c) => c.component_type() == k,
                    None => true,
                } by {
                if k != kind {
                    assert(before.columns.contains_key(k));
                }
            }
        }
    }

    /// Takes the component of type `kind` from `entity`. Fails where `entity`
    /// was never created, and where no component of the type was ever
    /// inserted, which is not the same as `entity` not having one.
    pub fn remove_component(&mut self, kind: ComponentType, entity: usize) -> (r: Result<(), Error>)
        requires
            old(self).wf(),
        ensures
            final(self).wf(),
            entity >= old(self)@.entity_count ==> r == Err::<(), Error>(Error::OutOfBounds),
            entity < old(self)@.entity_count
                && !old(self)@.columns.contains_key(kind) ==> r == Err::<
                (),
                Error,
            >(Error::UnknownComponentType),
            r is Err ==> final(self)@ == old(self)@,
            entity < old(self)@.entity_count && old(self)@.columns.contains_key(kind) ==> r is Ok
                && final(self)@ == old(self)@.without_component(kind, entity),
    {
        if entity >= self.entity_count {
            return Err(Error::OutOfBounds);
        }
        let index = kind.index();
        if !self.component_vecs[index].exists {
            return Err(Error::UnknownComponentType);
        }
        proof {
            lemma_column_of_index(*self, index as int);
        }
        self.component_vecs[index].slots[entity] = None;
        proof {
            let before = old(self)@;
            let after = self@;
            assert forall|k: ComponentType| k != kind implies after.columns.contains_key(k)
                == before.columns.contains_key(k)
                    && (before.columns.contains_key(k) ==> after.columns[k]
                == before.columns[k]) by {
                lemma_index_injective(k, kind);
            }
            assert(after.columns[kind] =~= before.columns[kind].update(entity as int, None));
            assert(after.columns =~= before.without_component(kind, entity).columns);
            lemma_without_component_wf(before, kind, entity);
        }
        Ok(())
    }

    /// The whole column of `kind`, to visit every entity that has such a
    /// component; `None` where no component of the type was ever inserted.
    pub fn borrow_component_vec(&self, kind: ComponentType) -> (column: Option<&Vec<Option<Component>>>)
        requires
            self.wf(),
        ensures
            column is Some <==> self@.columns.contains_key(kind),
            column is Some ==> view_slots(column->0@) == self@.columns[kind],
    {
        let index = kind.index();
        if self.component_vecs[index].exists {
            Some(&self.component_vecs[index].slots)
        } else {
            None
        }
    }

    /// The component of type `kind` that `entity` has; `None` where it has
    /// none, where no such component was ever inserted, and where `entity`
    /// was never created.
    pub fn borrow_entity_component(&self, kind: ComponentType, entity: usize) -> (component: Option<
        &Component,
    >)
        requires
            self.wf(),
        ensures
            component is Some <==> self@.has(kind, entity),
            component is Some ==> self@.component(kind, entity) == Some(component->0@),
            component is Some ==> component->0@.component_type() == kind,
    {
        let index = kind.index();
        if !self.component_vecs[index].exists || entity >= self.entity_count {
            return None;
        }
        proof {
            lemma_column_of_index(*self, index as int);
        }
        self.component_vecs[index].slots[entity].as_ref()
    }

    /// Whether this world is `before` but for the slot that `entity` has in
    /// the column of `kind`, which holds `component`.
    pub closed spec fn differs_in_slot(
        &self,
        before: &World,
        kind: ComponentType,
        entity: usize,
        component: Component,
    ) -> bool {
        let index = kind.spec_index() as int;
        &&& self.entity_count == before.entity_count
        &&& self.bsp == before.bsp
        &&& self.player == before.player
        &&& self.component_vecs@.len() == before.component_vecs@.len()
        &&& forall|i: int|
            0 <= i < self.component_vecs@.len() && i != index ==> #[trigger] self.component_vecs@[i]
                == before.component_vecs@[i]
        &&& self.component_vecs@[index].exists == before.component_vecs@[index].exists
        &&& self.component_vecs@[index].slots@.len() == before.component_vecs@[index].slots@.len()
        &&& forall|e: int|
            0 <= e < self.component_vecs@[index].slots@.len() && e != entity
                ==> #[trigger] self.component_vecs@[index].slots@[e]
                == before.component_vecs@[index].slots@[e]
        &&& self.component_vecs@[index].slots@[entity as int] == Some(component)
    }

    /// A world that differs from a well-formed world in one slot that was
    /// filled is that world with the new component in the slot; it is well
    /// formed where the component is of the type of its column.
    pub proof fn lemma_differs_in_slot(
        &self,
        before: &World,
        kind: ComponentType,
        entity: usize,
        component: Component,
    )
        requires
            before.wf(),
            before@.has(kind, entity),
            self.differs_in_slot(before, kind, entity, component),
        ensures
            self@ == before@.with_slot(kind, entity, component@),
            component@.component_type() == kind ==> self.wf(),
    {
        let index = kind.spec_index() as int;
        let after = before@.with_slot(kind, entity, component@);
        assert forall|k: ComponentType| self@.columns.contains_key(k) <==> after.columns.contains_key(
            k,
        ) by {
            if k != kind {
                lemma_index_injective(k, kind);
            }
        }
        assert forall|k: ComponentType| #[trigger] self@.columns.contains_key(k) implies self@.columns[k]
            == after.columns[k] by {
            if k != kind {
                lemma_index_injective(k, kind);
            } else {
                assert(self@.columns[k] =~= after.columns[k]);
            }
        }
        assert(self@.columns =~= after.columns);
        if component@.component_type() == kind {
            assert forall|k: ComponentType| #[trigger]
                after.columns.contains_key(k) implies after.columns[k].len() == after.entity_count
                && forall|e: int|
                0 <= e < after.entity_count ==> match #[trigger] after.columns[k][e] {
                    Some(c) => c.component_type() == k,
                    None => true,
                } by {
                assert(before@.columns.contains_key(k));
            }
        }
    }

    /// The component of type `kind` that `entity` has, to be changed in
    /// place; `None` as for `borrow_entity_component`. The world takes what
    /// the caller leaves in the slot, and stays well formed where that is a
    /// component of the same type. A position is not to be changed this way
    /// but with `update_position`, which keeps the regions in step.
    pub fn borrow_entity_component_mut(&mut self, kind: ComponentType, entity: usize) -> (component:
        Option<&mut Component>)
        requires
            old(self).wf(),
        ensures
            component is Some <==> old(self)@.has(kind, entity),
            component is None ==> *final(self) == *old(self),
            component is Some ==> old(self)@.component(kind, entity) == Some((*component->0)@),
            component is Some ==> final(self).differs_in_slot(
                old(self),
                kind,
                entity,
                *final(component->0),
            ),
    {
        let index = kind.index();
        if !self.component_vecs[index].exists || entity >= self.entity_count {
            return None;
        }
        proof {
            lemma_column_of_index(*self, index as int);
        }
        if self.component_vecs[index].slots[entity].is_none() {
            return None;
        }
        self.component_vecs[index].slots[entity].as_mut()
    }

    /// Whether `entity` has a component of type `kind`.
    pub fn has_component(&self, kind: ComponentType, entity: usize) -> (b: bool)
        requires
            self.wf(),
        ensures
            b == self@.has(kind, entity),
    {
        self.borrow_entity_component(kind, entity).is_some()
    }

    /// Where `entity` stands, if it has a position.
    pub fn position_of(&self, entity: usize) -> (position: Option<Coordinate>)
        requires
            self.wf(),
        ensures
            position == self@.position(entity),
    {
        match self.borrow_entity_component(ComponentType::Position, entity) {
            Some(Component::Position(p)) => Some(p.0),
            _ => None,
        }
    }

    /// Places `entity` at the position: sets its position and puts it into
    /// the region of the position. This is for an entity that stands in no
    /// region yet; one that is placed moves with `update_position`. Fails
    /// where `entity` was never created.
    pub fn add_position(&mut self, entity: usize, component: Position) -> (r: Result<(), Error>)
        requires
            old(self).wf(),
        ensures
            final(self).wf(),
            entity >= old(self)@.entity_count ==> r == Err::<(), Error>(Error::OutOfBounds)
                && final(self)@ == old(self)@,
            entity < old(self)@.entity_count ==> r is Ok && final(self)@ == old(self)@.placed(
                entity,
                component,
            ),
    {
        if entity >= self.entity_count {
            return Err(Error::OutOfBounds);
        }
        let destination = component.coordinate();
        let _ = self.add_component(entity, Component::Position(component));
        self.update_position(entity, destination);
        Ok(())
    }

    /// The entities that stand in the region of `coordinate`.
    pub fn get_entities_in_room(&self, coordinate: Coordinate) -> (entities: &Vec<usize>)
        requires
            self.wf(),
        ensures
            entities@ == self@.bsp.entities_at_leaf(coordinate),
    {
        let room = self.get_room_at_coordinate(coordinate);
        &room.entities
    }

    /// The entities that stand at `coordinate`.
    pub fn get_entities_at_coordinate(&self, coordinate: Coordinate) -> (entities: Vec<usize>)
        requires
            self.wf(),
        ensures
            entities@ == self@.entities_at(coordinate),
    {
        let room = self.get_room_at_coordinate(coordinate);
        let mut entities: Vec<usize> = Vec::new();
        let ghost pred = |e: usize| self@.stands_at(e, coordinate);
        let mut i: usize = 0;
        proof {
            reveal(Seq::filter);
            assert(room.entities@.take(0).filter(pred) =~= Seq::<usize>::empty());
        }
        while i < room.entities.len()
            invariant
                self.wf(),
                i <= room.entities@.len(),
                pred == |e: usize| self@.stands_at(e, coordinate),
                entities@ == room.entities@.take(i as int).filter(pred),
            decreases room.entities@.len() - i,
        {
            let entity = room.entities[i];
            let here = match self.position_of(entity) {
                Some(position) => position == coordinate,
                None => false,
            };
            proof {
                reveal(Seq::filter);
                assert(room.entities@.take(i as int + 1).drop_last() =~= room.entities@.take(
                    i as int,
                ));
                assert(room.entities@.take(i as int + 1).last() == entity);
                assert(here == pred(entity));
            }
            if here {
                entities.push(entity);
            }
            i = i + 1;
        }
        assert(room.entities@.take(i as int) =~= room.entities@);
        entities
    }

    /// The region in which `coordinate` is looked up, with its entities.
    pub fn get_room_at_coordinate(&self, coordinate: Coordinate) -> (room: &EntityContainer)
        requires
            self.wf(),
        ensures
            room@ == self@.bsp.nodes[self@.bsp.leaf_of(coordinate)],
    {
        self.bsp.container_at(coordinate)
    }

    /// The tree of regions.
    pub fn regions(&self) -> (bsp: &EntityGraph)
        ensures
            bsp@ == self@.bsp,
    {
        &self.bsp
    }

    /// Moves `entity` to `destination`: out of the region of its position,
    /// into the region of `destination`, where it stands last, and sets its
    /// position. This is the one way in which a placed entity changes its
    /// position. An entity without a position is left alone.
    pub fn update_position(&mut self, entity: usize, destination: Coordinate)
        requires
            old(self).wf(),
        ensures
            final(self).wf(),
            final(self)@ == old(self)@.relocated(entity, destination),
            old(self)@.spatially_consistent() ==> final(self)@.spatially_consistent(),
    {
        proof {
            if self@.spatially_consistent() {
                lemma_relocated_consistent(self@, entity, destination);
            }
        }
        let origin = match self.position_of(entity) {
            Some(origin) => origin,
            None => {
                return ;
            },
        };
        self.bsp.remove_entity_at(origin, entity);
        self.bsp.add_entity_at(destination, entity);
        let index = ComponentType::Position.index();
        proof {
            lemma_column_of_index(*old(self), index as int);
        }
        self.component_vecs[index].slots[entity] = Some(
            Component::Position(Position(destination)),
        );
        proof {
            let before = old(self)@;
            let after = self@;
            assert forall|k: ComponentType| k != ComponentType::Position implies after.columns.contains_key(
                k,
            ) == before.columns.contains_key(k) && (before.columns.contains_key(k)
                ==> after.columns[k]
                == before.columns[k]) by {
                lemma_index_injective(k, ComponentType::Position);
            }
            assert(after.columns[ComponentType::Position] =~= before.columns[ComponentType::Position].update(
                entity as int,
                Some(ComponentView::Position(Position(destination))),
            ));
            assert(after.columns =~= before.relocated(entity, destination).columns);
            lemma_relocated_wf(before, entity, destination);
        }
    }

    /// Marks `entity` as the player, and takes the mark from the player
    /// before it. Fails where `entity` was never created; the player before
    /// it has lost the mark by then.
    pub fn mark_as_player(&mut self, entity: usize) -> (r: Result<(), Error>)
        requires
            old(self).wf(),
        ensures
            final(self).wf(),
            entity < old(self)@.entity_count ==> r is Ok
                && final(self)@ == old(self)@.marked(entity),
            entity >= old(self)@.entity_count ==> r == Err::<(), Error>(Error::OutOfBounds)
                && final(self)@ == match old(self)@.player {
                Some(p) => old(self)@.without_component(ComponentType::Player, p),
                None => old(self)@,
            },
    {
        if let Some(old_player) = self.player {
            let _ = self.remove_component(ComponentType::Player, old_player);
        }
        match self.add_component(entity, Component::Player(Player)) {
            Ok(()) => {},
            Err(error) => {
                return Err(error);
            },
        }
        self.player = Some(entity);
        proof {
            let marked = old(self)@.marked(entity);
            assert(self@.columns =~= marked.columns);
        }
        Ok(())
    }

    /// The first entity at `coordinate` through which nothing can walk.
    pub fn get_blocking_entity(&self, coordinate: Coordinate) -> (entity: Option<usize>)
        requires
            self.wf(),
        ensures
            entity == self@.blocking_entity(coordinate),
    {
        let entities = self.get_entities_at_coordinate(coordinate);
        let ghost pred = |e: usize| self@.blocks(e);
        let mut i: usize = 0;
        assert(entities@.subrange(0, entities@.len() as int) =~= entities@);
        while i < entities.len()
            invariant
                self.wf(),
                i <= entities@.len(),
                entities@ == self@.entities_at(coordinate),
                pred == |e: usize| self@.blocks(e),
                first_matching(entities@, pred) == first_matching(
                    entities@.subrange(i as int, entities@.len() as int),
                    pred,
                ),
            decreases entities@.len() - i,
        {
            let ghost rest = entities@.subrange(i as int, entities@.len() as int);
            assert(rest.drop_first() =~= entities@.subrange(i as int + 1, entities@.len() as int));
            let blocks = match self.borrow_entity_component(ComponentType::Collision, entities[i]) {
                Some(Component::Collision(c)) => c.0 == Passable::Impassable,
                _ => false,
            };
            assert(blocks == pred(rest[0]));
            if blocks {
                assert(first_matching(rest, pred) == Some(rest[0]));
                return Some(entities[i]);
            }
            i = i + 1;
        }
        None
    }

    /// The first entity at `coordinate` through which nothing can see.
    pub fn get_sight_blocking_entity(&self, coordinate: Coordinate) -> (entity: Option<usize>)
        requires
            self.wf(),
        ensures
            entity == self@.sight_blocking_entity(coordinate),
    {
        let entities = self.get_entities_at_coordinate(coordinate);
        let ghost pred = |e: usize| self@.blocks_sight(e);
        let mut i: usize = 0;
        assert(entities@.subrange(0, entities@.len() as int) =~= entities@);
        while i < entities.len()
            invariant
                self.wf(),
                i <= entities@.len(),
                entities@ == self@.entities_at(coordinate),
                pred == |e: usize| self@.blocks_sight(e),
                first_matching(entities@, pred) == first_matching(
                    entities@.subrange(i as int, entities@.len() as int),
                    pred,
                ),
            decreases entities@.len() - i,
        {
            let ghost rest = entities@.subrange(i as int, entities@.len() as int);
            assert(rest.drop_first() =~= entities@.subrange(i as int + 1, entities@.len() as int));
            let blocks = match self.borrow_entity_component(
                ComponentType::SightBlocking,
                entities[i],
            ) {
                Some(Component::SightBlocking(s)) => s.0 == Los::Block,
                _ => false,
            };
            assert(blocks == pred(rest[0]));
            if blocks {
                assert(first_matching(rest, pred) == Some(rest[0]));
                return Some(entities[i]);
            }
            i = i + 1;
        }
        None
    }

    /// Whether an entity at `coordinate` is a hazard.
    pub fn coordinate_has_hazard(&self, coordinate: Coordinate) -> (b: bool)
        requires
            self.wf(),
        ensures
            b == self@.has_hazard(coordinate),
    {
        let entities = self.get_entities_at_coordinate(coordinate);
        let ghost pred = |e: usize| self@.has(ComponentType::Hazard, e);
        let mut i: usize = 0;
        assert(entities@.subrange(0, entities@.len() as int) =~= entities@);
        while i < entities.len()
            invariant
                self.wf(),
                i <= entities@.len(),
                entities@ == self@.entities_at(coordinate),
                pred == |e: usize| self@.has(ComponentType::Hazard, e),
                first_matching(entities@, pred) == first_matching(
                    entities@.subrange(i as int, entities@.len() as int),
                    pred,
                ),
            decreases entities@.len() - i,
        {
            let ghost rest = entities@.subrange(i as int, entities@.len() as int);
            assert(rest.drop_first() =~= entities@.subrange(i as int + 1, entities@.len() as int));
            let hazard = self.has_component(ComponentType::Hazard, entities[i]);
            assert(hazard == pred(rest[0]));
            if hazard {
                assert(first_matching(rest, pred) == Some(rest[0]));
                return true;
            }
            i = i + 1;
        }
        false
    }

    /// The entity that is marked as the player; fails where none is.
    pub fn get_player_id(&self) -> (r: Result<usize, Error>)
        ensures
            r == match self@.player {
                Some(p) => Ok::<usize, Error>(p),
                None => Err::<usize, Error>(Error::NoPlayerFound),
            },
    {
        match self.player {
            Some(p) => Ok(p),
            None => Err(Error::NoPlayerFound),
        }
    }

    /// Where the player stands; fails where no entity is marked as the
    /// player, and where the player has no position.
    pub fn get_player_position(&self) -> (r: Result<Coordinate, Error>)
        requires
            self.wf(),
        ensures
            r == match self@.player {
                None => Err::<Coordinate, Error>(Error::NoPlayerFound),
                Some(p) => match self@.position(p) {
                    Some(c) => Ok::<Coordinate, Error>(c),
                    None => Err::<Coordinate, Error>(
                        Error::MissingComponent { entity: p, component: ComponentType::Position },
                    ),
                },
            },
    {
        let player = match self.player {
            Some(p) => p,
            None => {
                return Err(Error::NoPlayerFound);
            },
        };
        match self.position_of(player) {
            Some(c) => Ok(c),
            None => Err(Error::MissingComponent { entity: player, component: ComponentType::Position }),
        }
    }
}

/// The column that stands at `index` in a well-formed world has one slot
/// per entity.
proof fn lemma_column_of_index(world: World, index: int)
    requires
        world.wf(),
        0 <= index < COMPONENT_TYPES,
        world.component_vecs@[index].exists,
    ensures
        world.component_vecs@[index].slots@.len() == world.entity_count,
        exists|k: ComponentType|
            k.spec_index() == index && world@.columns.contains_key(k) && world@.columns[k]
                == view_slots(world.component_vecs@[index].slots@),
{
    let k = kind_at(index);
    assert(k.spec_index() == index);
    assert(world@.columns.contains_key(k));
}

/// The component type that has its place at `index`.
spec fn kind_at(index: int) -> ComponentType {
    if index == 0 {
        ComponentType::Name
    } else if index == 1 {
        ComponentType::Image
    } else if index == 2 {
        ComponentType::ImageID
    } else if index == 3 {
        ComponentType::ImageState
    } else if index == 4 {
        ComponentType::Collision
    } else if index == 5 {
        ComponentType::SightBlocking
    } else if index == 6 {
        ComponentType::Position
    } else if index == 7 {
        ComponentType::Combat
    } else if index == 8 {
        ComponentType::Health
    } else if index == 9 {
        ComponentType::Xp
    } else if index == 10 {
        ComponentType::Attributes
    } else if index == 11 {
        ComponentType::Coins
    } else if index == 12 {
        ComponentType::Inventory
    } else if index == 13 {
        ComponentType::Spellbook
    } else if index == 14 {
        ComponentType::Behavior
    } else if index == 15 {
        ComponentType::Player
    } else if index == 16 {
        ComponentType::Monster
    } else if index == 17 {
        ComponentType::Door
    } else if index == 18 {
        ComponentType::StairsDown
    } else if index == 19 {
        ComponentType::Hazard
    } else if index == 20 {
        ComponentType::AttackResponse
    } else if index == 21 {
        ComponentType::ShootResponse
    } else if index == 22 {
        ComponentType::SpellResponse
    } else if index == 23 {
        ComponentType::NoiseResponse
    } else if index == 24 {
        ComponentType::InteractResponse
    } else if index == 25 {
        ComponentType::PickupResponse
    } else {
        ComponentType::DeathResponse
    }
}

/// Creating an entity keeps the world well formed: every column has one
/// slot per entity before and after.
pub proof fn lemma_created_wf(world: WorldView)
    requires
        world.wf(),
    ensures
        world.created().wf(),
        world.created().entity_count == world.entity_count + 1,
        world.spatially_consistent() ==> world.created().spatially_consistent(),
{
    let after = world.created();
    assert forall|k: ComponentType| #[trigger] after.columns.contains_key(k) implies after.columns[k].len()
        == after.entity_count && forall|e: int|
        0 <= e < after.entity_count ==> match #[trigger] after.columns[k][e] {
            Some(c) => c.component_type() == k,
            None => true,
        } by {
        assert(world.columns.contains_key(k));
        assert forall|e: int| 0 <= e < after.entity_count implies match #[trigger] after.columns[k][e] {
            Some(c) => c.component_type() == k,
            None => true,
        } by {
            if e < world.entity_count {
                assert(after.columns[k][e] == world.columns[k][e]);
            }
        }
    }
    if world.spatially_consistent() {
        assert forall|e: usize, node: int|
            after.position(e) is Some
                && after.bsp.has_node(node) implies #[trigger] after.occurrences_in(
            node,
            e,
        ) == if node == after.bsp.leaf_of(after.position(e)->0) {
            1nat
        } else {
            0nat
        } by {
            assert(world.columns.contains_key(ComponentType::Position));
            assert(e < world.entity_count);
            assert(after.position(e) == world.position(e));
            assert(world.occurrences_in(node, e) == after.occurrences_in(node, e));
        }
    }
}

/// Taking all components from an entity keeps the world well formed, and
/// keeps it spatially consistent.
pub proof fn lemma_tombstoned_wf(world: WorldView, entity: usize)
    requires
        world.wf(),
        entity < world.entity_count,
    ensures
        world.tombstoned(entity).wf(),
        world.spatially_consistent() ==> world.tombstoned(entity).spatially_consistent(),
{
    let after = world.tombstoned(entity);
    assert forall|k: ComponentType| #[trigger] after.columns.contains_key(k) implies after.columns[k].len()
        == after.entity_count && forall|e: int|
        0 <= e < after.entity_count ==> match #[trigger] after.columns[k][e] {
            Some(c) => c.component_type() == k,
            None => true,
        } by {
        assert(world.columns.contains_key(k));
        assert forall|e: int| 0 <= e < after.entity_count implies match #[trigger] after.columns[k][e] {
            Some(c) => c.component_type() == k,
            None => true,
        } by {
            if e != entity {
                assert(after.columns[k][e] == world.columns[k][e]);
            }
        }
    }
    if world.spatially_consistent() {
        assert forall|e: usize, node: int|
            after.position(e) is Some
                && after.bsp.has_node(node) implies #[trigger] after.occurrences_in(
            node,
            e,
        ) == if node == after.bsp.leaf_of(after.position(e)->0) {
            1nat
        } else {
            0nat
        } by {
            assert(world.columns.contains_key(ComponentType::Position));
            assert(e != entity);
            assert(after.position(e) == world.position(e));
            assert(world.occurrences_in(node, e) == after.occurrences_in(node, e));
        }
    }
}

/// Giving an entity a component keeps the world well formed.
pub proof fn lemma_with_component_wf(world: WorldView, entity: usize, component: ComponentView)
    requires
        world.wf(),
        entity < world.entity_count,
    ensures
        world.with_component(entity, component).wf(),
{
    let after = world.with_component(entity, component);
    let kind = component.component_type();
    assert forall|k: ComponentType| #[trigger] after.columns.contains_key(k) implies after.columns[k].len()
        == after.entity_count && forall|e: int|
        0 <= e < after.entity_count ==> match #[trigger] after.columns[k][e] {
            Some(c) => c.component_type() == k,
            None => true,
        } by {
        if k != kind {
            assert(world.columns.contains_key(k));
        } else {
            assert forall|e: int| 0 <= e < after.entity_count implies match #[trigger] after.columns[k][e] {
                Some(c) => c.component_type() == k,
                None => true,
            } by {
                if e != entity && world.columns.contains_key(k) {
                    assert(after.columns[k][e] == world.columns[k][e]);
                }
            }
        }
    }
}

/// Taking a component from an entity keeps the world well formed.
pub proof fn lemma_without_component_wf(world: WorldView, kind: ComponentType, entity: usize)
    requires
        world.wf(),
        entity < world.entity_count,
        world.columns.contains_key(kind),
    ensures
        world.without_component(kind, entity).wf(),
{
    let after = world.without_component(kind, entity);
    assert forall|k: ComponentType| #[trigger] after.columns.contains_key(k) implies after.columns[k].len()
        == after.entity_count && forall|e: int|
        0 <= e < after.entity_count ==> match #[trigger] after.columns[k][e] {
            Some(c) => c.component_type() == k,
            None => true,
        } by {
        assert(world.columns.contains_key(k));
        if k == kind {
            assert forall|e: int| 0 <= e < after.entity_count implies match #[trigger] after.columns[k][e] {
                Some(c) => c.component_type() == k,
                None => true,
            } by {
                if e != entity {
                    assert(after.columns[k][e] == world.columns[k][e]);
                }
            }
        }
    }
}

/// Moving an entity keeps the world well formed.
pub proof fn lemma_relocated_wf(world: WorldView, entity: usize, destination: Coordinate)
    requires
        world.wf(),
    ensures
        world.relocated(entity, destination).wf(),
{
    let after = world.relocated(entity, destination);
    if let Some(origin) = world.position(entity) {
        let kind = ComponentType::Position;
        assert(world.columns.contains_key(kind));
        assert(entity < world.entity_count);
        assert forall|k: ComponentType| #[trigger]
            after.columns.contains_key(k) implies after.columns[k].len() == after.entity_count
            && forall|e: int|
            0 <= e < after.entity_count ==> match #[trigger] after.columns[k][e] {
                Some(c) => c.component_type() == k,
                None => true,
            } by {
            assert(world.columns.contains_key(k));
            if k == kind {
                assert forall|e: int| 0 <= e < after.entity_count implies match #[trigger] after.columns[k][e] {
                    Some(c) => c.component_type() == k,
                    None => true,
                } by {
                    if e != entity {
                        assert(after.columns[k][e] == world.columns[k][e]);
                    }
                }
            }
        }
        lemma_moved_regions(world.bsp, origin, destination, entity, world.entity_count);
    }
}

/// Taking an entity out of the region of `origin` and putting it into the
/// region of `destination` keeps the tree well formed and its ids in bounds.
pub proof fn lemma_moved_regions(
    tree: EntityGraphView,
    origin: Coordinate,
    destination: Coordinate,
    entity: usize,
    bound: nat,
)
    requires
        tree.wf(),
        tree.entities_below(bound),
        entity < bound,
    ensures
        tree.without_entity(origin, entity).with_entity(destination, entity).wf(),
        tree.without_entity(origin, entity).with_entity(destination, entity).entities_below(bound),
        forall|c: Coordinate| #[trigger]
            tree.without_entity(origin, entity).with_entity(destination, entity).leaf_of(c)
                == tree.leaf_of(c),
{
    let from = tree.leaf_of(origin);
    lemma_leaf_from(tree, 0, origin);
    lemma_leaf_from(tree, 0, destination);
    let left = without_first(tree.entities_at_leaf(origin), entity);
    lemma_with_entities_wf(tree, from, left);
    let middle = tree.without_entity(origin, entity);
    let to = middle.leaf_of(destination);
    let arrived = middle.entities_at_leaf(destination).push(entity);
    lemma_with_entities_wf(middle, to, arrived);
    let after = middle.with_entity(destination, entity);
    lemma_without_first_subset(tree.entities_at_leaf(origin), entity);
    assert forall|i: int, j: int|
        middle.has_node(i) && 0 <= j < middle.nodes[i].entities.len() implies (
    #[trigger] middle.nodes[i].entities[j]) < bound by {
        assert(tree.has_node(i));
        if i == from {
            let k = choose|k: int|
                0 <= k < tree.nodes[from].entities.len() && tree.nodes[from].entities[k]
                    == left[j];
            assert(tree.nodes[i].entities[k] < bound);
        } else {
            assert(tree.nodes[i].entities[j] < bound);
        }
    }
    assert forall|i: int, j: int|
        after.has_node(i) && 0 <= j < after.nodes[i].entities.len() implies (
    #[trigger] after.nodes[i].entities[j]) < bound by {
        assert(middle.has_node(i));
        if i == to && j == middle.nodes[to].entities.len() {
        } else {
            assert(middle.nodes[i].entities[j] < bound);
        }
    }
}

/// The component types that go with the player from one level to the next,
/// in the order in which they are copied.
pub open spec fn carried_over() -> Seq<ComponentType> {
    seq![
        ComponentType::Name,
        ComponentType::Image,
        ComponentType::Collision,
        ComponentType::SightBlocking,
        ComponentType::Combat,
        ComponentType::Health,
        ComponentType::Xp,
        ComponentType::Attributes,
        ComponentType::Coins,
        ComponentType::Inventory,
        ComponentType::Spellbook,
    ]
}

impl WorldView {
    /// The world after `entity` got the component of type `kind` that
    /// `source` has in `from`, where it has one.
    pub open spec fn with_copy(self, entity: usize, from: WorldView, source: usize, kind: ComponentType)
        -> WorldView {
        match from.component(kind, source) {
            Some(c) => self.with_component(entity, c),
            None => self,
        }
    }

    /// The world after `entity` got the components of the first `count`
    /// types that are carried over, as `source` has them in `from`.
    pub open spec fn with_copies(self, entity: usize, from: WorldView, source: usize, count: nat)
        -> WorldView
        decreases count,
    {
        if count == 0 {
            self
        } else {
            self.with_copies(entity, from, source, (count - 1) as nat).with_copy(
                entity,
                from,
                source,
                carried_over()[count - 1],
            )
        }
    }

    /// The world after the player of `old_world` was imported: the player
    /// of this world has every component that is carried over and that the
    /// player of the old world has.
    pub open spec fn imported(self, old_world: WorldView) -> WorldView {
        self.marked(self.player->0).with_copies(
            self.player->0,
            old_world,
            old_world.player->0,
            carried_over().len(),
        )
    }
}

impl World {
    /// Gives `entity` the component of type `kind` that `source` has in
    /// `from`, where it has one.
    fn copy_component(&mut self, entity: usize, from: &World, source: usize, kind: ComponentType)
        requires
            old(self).wf(),
            from.wf(),
            entity < old(self)@.entity_count,
        ensures
            final(self).wf(),
            final(self)@ == old(self)@.with_copy(entity, from@, source, kind),
            final(self)@.entity_count == old(self)@.entity_count,
    {
        match from.borrow_entity_component(kind, source) {
            Some(component) => {
                let _ = self.add_component(entity, component.duplicate());
            },
            None => {},
        }
    }

    /// Copies to the player of this world what the player of `old_world`
    /// carries over to a new level: its name, image, collision and sight
    /// blocking, its combat, health, experience and attributes, its coins,
    /// inventory and spells. Fails, and changes nothing, where one of the two
    /// worlds has no player.
    pub fn import_player(&mut self, old_world: &World) -> (r: Result<(), Error>)
        requires
            old(self).wf(),
            old_world.wf(),
        ensures
            final(self).wf(),
            old_world@.player is None || old(self)@.player is None ==> r == Err::<(), Error>(
                Error::NoPlayerFound,
            ) && final(self)@ == old(self)@,
            old_world@.player is Some && old(self)@.player is Some ==> r is Ok && final(self)@
                == old(self)@.imported(old_world@),
    {
        let old_player = match old_world.get_player_id() {
            Ok(p) => p,
            Err(_) => {
                return Err(Error::NoPlayerFound);
            },
        };
        let new_player = match self.get_player_id() {
            Ok(p) => p,
            Err(_) => {
                return Err(Error::NoPlayerFound);
            },
        };
        let _ = self.mark_as_player(new_player);
        proof {
            reveal_with_fuel(WorldView::with_copies, 12);
        }
        self.copy_component(new_player, old_world, old_player, ComponentType::Name);
        self.copy_component(new_player, old_world, old_player, ComponentType::Image);
        self.copy_component(new_player, old_world, old_player, ComponentType::Collision);
        self.copy_component(new_player, old_world, old_player, ComponentType::SightBlocking);
        self.copy_component(new_player, old_world, old_player, ComponentType::Combat);
        self.copy_component(new_player, old_world, old_player, ComponentType::Health);
        self.copy_component(new_player, old_world, old_player, ComponentType::Xp);
        self.copy_component(new_player, old_world, old_player, ComponentType::Attributes);
        self.copy_component(new_player, old_world, old_player, ComponentType::Coins);
        self.copy_component(new_player, old_world, old_player, ComponentType::Inventory);
        self.copy_component(new_player, old_world, old_player, ComponentType::Spellbook);
        Ok(())
    }

    /// The region of the room `other` with the entities that stand in the
    /// region in which its top-left corner is looked up.
    pub fn get_room_data_from(&self, other: &Room) -> (container: EntityContainer)
        requires
            self.wf(),
        ensures
            container@ == (EntityContainerView {
                extends: other.extends,
                entities: self@.bsp.entities_at_leaf(other.extends.top_left),
            }),
    {
        let coordinate = other.extends.top_left;
        let found = self.get_room_at_coordinate(coordinate).duplicate();
        EntityContainer { extends: other.extends, entities: found.entities }
    }
}

/// Moving an entity keeps the spatial index consistent: every entity with
/// a position stands exactly once in the regions, and that in the region in
/// which its position is looked up.
pub proof fn lemma_relocated_consistent(world: WorldView, entity: usize, destination: Coordinate)
    requires
        world.wf(),
        world.spatially_consistent(),
    ensures
        world.relocated(entity, destination).spatially_consistent(),
{
    let after = world.relocated(entity, destination);
    if let Some(origin) = world.position(entity) {
        lemma_moved_occurrences(world.bsp, origin, destination, entity);
        lemma_moved_regions(world.bsp, origin, destination, entity, world.entity_count);
        assert forall|e: usize, node: int|
            after.position(e) is Some
                && after.bsp.has_node(node) implies #[trigger] after.occurrences_in(
            node,
            e,
        ) == if node == after.bsp.leaf_of(after.position(e)->0) {
            1nat
        } else {
            0nat
        } by {
            assert(world.bsp.has_node(node));
            if e == entity {
                assert(world.occurrences_in(node, e) == if node == world.bsp.leaf_of(origin) {
                    1nat
                } else {
                    0nat
                });
            } else {
                assert(after.position(e) == world.position(e));
                assert(world.occurrences_in(node, e) == if node == world.bsp.leaf_of(
                    world.position(e)->0,
                ) {
                    1nat
                } else {
                    0nat
                });
            }
        }
    }
}

/// How often an entity occurs in a region after `entity` moved from the
/// region of `origin` to the region of `destination`.
pub proof fn lemma_moved_occurrences(
    tree: EntityGraphView,
    origin: Coordinate,
    destination: Coordinate,
    entity: usize,
)
    requires
        tree.wf(),
    ensures
        forall|node: int, other: usize|
            tree.has_node(node) ==> #[trigger] tree.without_entity(origin, entity).with_entity(
                destination,
                entity,
            ).nodes[node].entities.to_multiset().count(other) == tree.nodes[node].entities.to_multiset().count(
                other,
            ) - (if other == entity && node == tree.leaf_of(origin)
                && tree.nodes[node].entities.to_multiset().count(entity) > 0 {
                1int
            } else {
                0int
            }) + (if other == entity && node == tree.leaf_of(destination) {
                1int
            } else {
                0int
            }),
{
    let from = tree.leaf_of(origin);
    lemma_leaf_from(tree, 0, origin);
    lemma_leaf_from(tree, 0, destination);
    let left = without_first(tree.entities_at_leaf(origin), entity);
    lemma_with_entities_wf(tree, from, left);
    let middle = tree.without_entity(origin, entity);
    let to = middle.leaf_of(destination);
    assert(to == tree.leaf_of(destination));
    let after = middle.with_entity(destination, entity);
    assert forall|node: int, other: usize| tree.has_node(node) implies #[trigger] after.nodes[node].entities.to_multiset().count(
        other,
    ) == tree.nodes[node].entities.to_multiset().count(other) - (if other == entity && node
        == from && tree.nodes[node].entities.to_multiset().count(entity) > 0 {
        1int
    } else {
        0int
    }) + (if other == entity && node == to {
        1int
    } else {
        0int
    }) by {
        lemma_without_first_occurrences(tree.nodes[from].entities, entity, other);
        lemma_push_occurrences(middle.nodes[to].entities, entity, other);
    }
}

/// Placing an entity that stands in no region keeps the spatial index
/// consistent.
pub proof fn lemma_placed_consistent(world: WorldView, entity: usize, position: Position)
    requires
        world.bsp.wf(),
        world.bsp.entities_below(world.entity_count),
        world.columns.contains_key(ComponentType::Position)
            ==> world.columns[ComponentType::Position].len() == world.entity_count,
        world.spatially_consistent(),
        entity < world.entity_count,
        world.unindexed(entity),
    ensures
        world.placed(entity, position).spatially_consistent(),
{
    let set = world.with_component(entity, ComponentView::Position(position));
    let after = world.placed(entity, position);
    assert(set.position(entity) == Some(position.0));
    lemma_moved_occurrences(set.bsp, position.0, position.0, entity);
    lemma_moved_regions(set.bsp, position.0, position.0, entity, set.entity_count);
    assert forall|e: usize, node: int|
        after.position(e) is Some
            && after.bsp.has_node(node) implies #[trigger] after.occurrences_in(
        node,
        e,
    ) == if node == after.bsp.leaf_of(after.position(e)->0) {
        1nat
    } else {
        0nat
    } by {
        assert(world.bsp.has_node(node));
        if e == entity {
            assert(world.occurrences_in(node, e) == 0);
        } else {
            assert(after.position(e) == world.position(e));
            assert(world.occurrences_in(node, e) == if node == world.bsp.leaf_of(
                world.position(e)->0,
            ) {
                1nat
            } else {
                0nat
            });
        }
    }
}

/// An entity that was just created stands in no region.
pub proof fn lemma_created_unindexed(world: WorldView)
    requires
        world.wf(),
        world.entity_count < usize::MAX,
    ensures
        world.created().unindexed(world.entity_count as usize),
{
    broadcast use vstd::seq_lib::group_to_multiset_ensures;

    let after = world.created();
    let entity = world.entity_count as usize;
    assert forall|node: int| after.bsp.has_node(node) implies #[trigger] after.occurrences_in(
        node,
        entity,
    ) == 0 by {
        let entities = world.bsp.nodes[node].entities;
        if entities.to_multiset().count(entity) > 0 {
            assert(entities.contains(entity));
            let j = choose|j: int| 0 <= j < entities.len() && entities[j] == entity;
            assert(world.bsp.has_node(node));
            assert(world.bsp.nodes[node].entities[j] < world.entity_count);
        }
    }
}

/// Where an entity moves from one region to another, it stands no longer in
/// the first, it stands in the second, and its position is the destination.
pub proof fn lemma_relocation_correct(world: WorldView, entity: usize, destination: Coordinate)
    requires
        world.wf(),
        world.spatially_consistent(),
        world.position(entity) is Some,
        world.bsp.leaf_of(world.position(entity)->0) != world.bsp.leaf_of(destination),
    ensures
        !world.relocated(entity, destination).bsp.nodes[world.bsp.leaf_of(
            world.position(entity)->0,
        )].entities.contains(entity),
        world.relocated(entity, destination).bsp.nodes[world.bsp.leaf_of(
            destination,
        )].entities.contains(entity),
        world.relocated(entity, destination).position(entity) == Some(destination),
{
    broadcast use vstd::seq_lib::group_to_multiset_ensures;

    let origin = world.position(entity)->0;
    let after = world.relocated(entity, destination);
    lemma_leaf_from(world.bsp, 0, origin);
    lemma_leaf_from(world.bsp, 0, destination);
    lemma_moved_occurrences(world.bsp, origin, destination, entity);
    let from = world.bsp.leaf_of(origin);
    let to = world.bsp.leaf_of(destination);
    assert(world.occurrences_in(from, entity) == 1);
    assert(world.occurrences_in(to, entity) == 0);
    assert(after.bsp.nodes[from].entities.to_multiset().count(entity) == 0);
    assert(after.bsp.nodes[to].entities.to_multiset().count(entity) == 1);
}

/// Taking all components from an entity twice leaves what taking them once
/// leaves: the entity has no component.
pub proof fn lemma_tombstone_idempotent(world: WorldView, entity: usize)
    requires
        world.wf(),
        entity < world.entity_count,
    ensures
        world.tombstoned(entity).tombstoned(entity) == world.tombstoned(entity),
        forall|kind: ComponentType| !(#[trigger] world.tombstoned(entity).has(kind, entity)),
{
    let once = world.tombstoned(entity);
    let twice = once.tombstoned(entity);
    assert forall|k: ComponentType| #[trigger] once.columns.contains_key(k) implies twice.columns[k]
        == once.columns[k] by {
        assert(twice.columns[k] =~= once.columns[k]);
    }
    assert(twice.columns =~= once.columns);
    assert forall|kind: ComponentType| !(#[trigger] once.has(kind, entity)) by {
        if once.columns.contains_key(kind) {
            assert(world.columns.contains_key(kind));
        }
    }
}

/// Where nothing was made or moved, the spatial index stays consistent,
/// and an entity that stood in no region stands in none.
pub proof fn lemma_same_standing_consistent(before: WorldView, after: WorldView)
    requires
        after.same_standing(before),
    ensures
        before.spatially_consistent() ==> after.spatially_consistent(),
        forall|e: usize| before.unindexed(e) ==> after.unindexed(e),
{
    assert forall|e: usize| after.position(e) == before.position(e) by {}
    if before.spatially_consistent() {
        assert forall|e: usize, node: int|
            after.position(e) is Some
                && after.bsp.has_node(node) implies #[trigger] after.occurrences_in(
            node,
            e,
        ) == if node == after.bsp.leaf_of(after.position(e)->0) {
            1nat
        } else {
            0nat
        } by {
            assert(after.position(e) == before.position(e));
            assert(before.occurrences_in(node, e) == after.occurrences_in(node, e));
        }
    }
    assert forall|e: usize| before.unindexed(e) implies after.unindexed(e) by {
        assert forall|node: int| after.bsp.has_node(node) implies #[trigger] after.occurrences_in(
            node,
            e,
        ) == 0 by {
            assert(before.occurrences_in(node, e) == after.occurrences_in(node, e));
        }
    }
}

/// Giving an entity a component that is no position makes and moves
/// nothing.
pub proof fn lemma_component_keeps_standing(world: WorldView, entity: usize, component: ComponentView)
    requires
        component.component_type() != ComponentType::Position,
    ensures
        world.with_component(entity, component).same_standing(world),
{
}

/// Marking an entity as the player makes and moves nothing.
pub proof fn lemma_mark_keeps_standing(world: WorldView, entity: usize)
    ensures
        world.marked(entity).same_standing(world),
{
}

/// Giving an entity a component that is no position, and taking any
/// component from it, keeps the spatial index consistent.
pub proof fn lemma_components_keep_consistency(
    world: WorldView,
    entity: usize,
    component: ComponentView,
    kind: ComponentType,
)
    requires
        world.wf(),
        world.spatially_consistent(),
        entity < world.entity_count,
    ensures
        component.component_type() != ComponentType::Position ==> world.with_component(
            entity,
            component,
        ).spatially_consistent(),
        world.columns.contains_key(kind) ==> world.without_component(
            kind,
            entity,
        ).spatially_consistent(),
{
    if component.component_type() != ComponentType::Position {
        let after = world.with_component(entity, component);
        assert forall|e: usize, node: int|
            after.position(e) is Some
                && after.bsp.has_node(node) implies #[trigger] after.occurrences_in(
            node,
            e,
        ) == if node == after.bsp.leaf_of(after.position(e)->0) {
            1nat
        } else {
            0nat
        } by {
            assert(after.position(e) == world.position(e));
            assert(world.occurrences_in(node, e) == after.occurrences_in(node, e));
        }
    }
    if world.columns.contains_key(kind) {
        let after = world.without_component(kind, entity);
        assert forall|e: usize, node: int|
            after.position(e) is Some
                && after.bsp.has_node(node) implies #[trigger] after.occurrences_in(
            node,
            e,
        ) == if node == after.bsp.leaf_of(after.position(e)->0) {
            1nat
        } else {
            0nat
        } by {
            assert(world.position(e) is Some);
            assert(after.position(e) == world.position(e));
            assert(world.occurrences_in(node, e) == after.occurrences_in(node, e));
        }
    }
}

} // verus!
