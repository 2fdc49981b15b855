//! The definitions that the game data provides: tiles, entity templates,
//! spawn tables, room templates and spells, each filed under its identifier.

pub mod id;
pub mod serialize_gametile;
pub mod serialize_roomtemplate;
pub mod serialize_spawnable;
pub mod serialize_spawnentry;
pub mod serialize_spell;

use std::collections::HashMap;
use vstd::prelude::*;
use vstd::std_specs::hash::*;
use self::id::{
    ImageID, RoomTemplateID, SpawnEntryID, SpawnableID, SpellDefinitionId, TileID,
};
use self::serialize_spell::SpellDefinition;
use crate::component::image::ImageState;
use crate::component::spell::SpellEffectName;
use crate::component::Name;
use crate::map::tile::GameTile;
use crate::spawning::entitytemplate::EntityTemplateEnum;
use crate::spawning::roomtemplate::RoomTemplate;
use crate::spawning::spawnentry::SpawnEntryType;
use crate::system::TimeSlot;

verus! {

broadcast use group_hash_axioms;

/// The numbers of the identifiers that the code itself refers to.
pub const DEFAULT_IMAGE_ID: usize = 4;

pub const DEFAULT_TILEID: usize = 0;

pub const WALL_TILEID: usize = 2;

pub const FLOOR_TILEID: usize = 1;

pub const DOOR_SPAWNABLE: usize = 0;

pub const GOLD_PILE_SPAWNABLE: usize = 5;

pub const PLAYER_SPAWNENTRY: usize = 0;

pub const STAIRS_SPAWNENTRY: usize = 1;

/// The side of a tile of the tile set, in pixels.
pub const TILESET_SIZE: u32 = 32;

/// The definitions of the game.
pub struct ResourceManager {
    tile_definitions: HashMap<usize, GameTile>,
    spawnable_definitions: HashMap<usize, Vec<EntityTemplateEnum>>,
    spawn_entry_definitions: HashMap<usize, SpawnEntryType>,
    room_template_definitions: HashMap<usize, RoomTemplate>,
    room_template_ids: Vec<RoomTemplateID>,
    spell_definition: HashMap<usize, SpellDefinition>,
}

impl ResourceManager {
    /// The tiles, each under the number of its identifier.
    pub closed spec fn tiles(&self) -> Map<usize, GameTile> {
        self.tile_definitions@
    }

    /// The lists of entity templates, each under the number of its
    /// identifier.
    pub closed spec fn spawnables(&self) -> Map<usize, Vec<EntityTemplateEnum>> {
        self.spawnable_definitions@
    }

    /// The entries of the spawn tables, each under the number of its
    /// identifier.
    pub closed spec fn spawn_entries(&self) -> Map<usize, SpawnEntryType> {
        self.spawn_entry_definitions@
    }

    /// The room templates, each under the number of its identifier.
    pub closed spec fn room_templates(&self) -> Map<usize, RoomTemplate> {
        self.room_template_definitions@
    }

    /// The identifiers of the room templates, in the order in which they
    /// were first filed.
    pub closed spec fn room_template_order(&self) -> Seq<RoomTemplateID> {
        self.room_template_ids@
    }

    /// The spells, each under the number of its identifier.
    pub closed spec fn spells(&self) -> Map<usize, SpellDefinition> {
        self.spell_definition@
    }

    /// Whether every identifier in the order of the room templates has a
    /// template.
    pub closed spec fn wf(&self) -> bool {
        forall|i: int|
            0 <= i < self.room_template_ids@.len() ==> self.room_template_definitions@.contains_key(
                (#[trigger] self.room_template_ids@[i]).0,
            )
    }

    /// No definitions at all.
    pub fn empty() -> (resources: ResourceManager)
        ensures
            resources.wf(),
            resources.tiles() == Map::<usize, GameTile>::empty(),
            resources.spawnables() == Map::<usize, Vec<EntityTemplateEnum>>::empty(),
            resources.spawn_entries() == Map::<usize, SpawnEntryType>::empty(),
            resources.room_templates() == Map::<usize, RoomTemplate>::empty(),
            resources.room_template_order() == Seq::<RoomTemplateID>::empty(),
            resources.spells() == Map::<usize, SpellDefinition>::empty(),
    {
        ResourceManager {
            tile_definitions: HashMap::new(),
            spawnable_definitions: HashMap::new(),
            spawn_entry_definitions: HashMap::new(),
            room_template_definitions: HashMap::new(),
            room_template_ids: Vec::new(),
            spell_definition: HashMap::new(),
        }
    }

    /// The two spells that every game has, Fireball and Scry, and no other
    /// definitions.
    pub fn new() -> (resources: ResourceManager)
        ensures
            resources.wf(),
            resources.tiles() == Map::<usize, GameTile>::empty(),
            resources.spawnables() == Map::<usize, Vec<EntityTemplateEnum>>::empty(),
            resources.spawn_entries() == Map::<usize, SpawnEntryType>::empty(),
            resources.room_templates() == Map::<usize, RoomTemplate>::empty(),
            resources.spells().dom() == set![0usize, 1usize],
            resources.spells()[0].effect == SpellEffectName::Fireball,
            resources.spells()[0].casts == 2,
            resources.spells()[0].name.0@ == "Fireball"@,
            resources.spells()[1].effect == SpellEffectName::Scry,
            resources.spells()[1].casts == 1,
            resources.spells()[1].name.0@ == "Scry"@,
    {
        let mut resources = ResourceManager::empty();
        let mut fireball_icons = ImageState::new();
        fireball_icons.add_state("available", ImageID(0));
        fireball_icons.current = String::from_str("available");
        let fireball = SpellDefinition {
            name: Name(String::from_str("Fireball")),
            effect: SpellEffectName::Fireball,
            icon_states: fireball_icons,
            casts: 2,
            reset_time_slot: TimeSlot::EndOfLevel,
        };
        resources.spell_definition.insert(0, fireball);
        let mut scry_icons = ImageState::new();
        scry_icons.add_state("available", ImageID(0));
        scry_icons.current = String::from_str("available");
        let scry = SpellDefinition {
            name: Name(String::from_str("Scry")),
            effect: SpellEffectName::Scry,
            icon_states: scry_icons,
            casts: 1,
            reset_time_slot: TimeSlot::EndOfLevel,
        };
        resources.spell_definition.insert(1, scry);
        assert(resources.spells().dom() =~= set![0usize, 1usize]);
        resources
    }

    /// The definition of the tile `tile_id`.
    pub fn get_tile(&self, tile_id: TileID) -> (tile: Option<&GameTile>)
        ensures
            tile == if self.tiles().contains_key(tile_id.0) {
                Some(&self.tiles()[tile_id.0])
            } else {
                None
            },
    {
        let k = tile_id.0;
        self.tile_definitions.get(&k)
    }

    /// Files `tile` under `tile_id`.
    pub fn set_tile(&mut self, tile_id: TileID, tile: GameTile)
        requires
            old(self).wf(),
        ensures
            final(self).wf(),
            final(self).tiles() == old(self).tiles().insert(tile_id.0, tile),
            final(self).spawnables() == old(self).spawnables(),
            final(self).spawn_entries() == old(self).spawn_entries(),
            final(self).room_templates() == old(self).room_templates(),
            final(self).room_template_order() == old(self).room_template_order(),
            final(self).spells() == old(self).spells(),
    {
        self.tile_definitions.insert(tile_id.0, tile);
    }

    /// The templates from which the spawnable is made, in order; none where
    /// nothing is filed under the identifier.
    pub open spec fn templates_of(&self, spawnable: SpawnableID) -> Seq<&EntityTemplateEnum> {
        if self.spawnables().contains_key(spawnable.0) {
            Seq::new(
                self.spawnables()[spawnable.0]@.len(),
                |i: int| &self.spawnables()[spawnable.0]@[i],
            )
        } else {
            Seq::empty()
        }
    }

    /// The templates from which the spawnable is made, in order; none where
    /// nothing is filed under the identifier.
    pub fn get_entity_templates(&self, spawnable: SpawnableID) -> (templates: Vec<&EntityTemplateEnum>)
        ensures
            templates@ == self.templates_of(spawnable),
    {
        let k = spawnable.0;
        let mut templates: Vec<&EntityTemplateEnum> = Vec::new();
        match self.spawnable_definitions.get(&k) {
            Some(list) => {
                let mut i: usize = 0;
                while i < list.len()
                    invariant
                        i <= list@.len(),
                        templates@.len() == i,
                        forall|j: int| 0 <= j < i ==> *templates@[j] == list@[j],
                    decreases list@.len() - i,
                {
                    templates.push(&list[i]);
                    i = i + 1;
                }
                assert(templates@ =~= self.templates_of(spawnable));
                templates
            },
            None => {
                assert(templates@ =~= self.templates_of(spawnable));
                templates
            },
        }
    }

    /// Files the templates of a spawnable under `spawnable`.
    pub fn set_entity_templates(&mut self, spawnable: SpawnableID, templates: Vec<EntityTemplateEnum>)
        requires
            old(self).wf(),
        ensures
            final(self).wf(),
            final(self).spawnables() == old(self).spawnables().insert(spawnable.0, templates),
            final(self).tiles() == old(self).tiles(),
            final(self).spawn_entries() == old(self).spawn_entries(),
            final(self).room_templates() == old(self).room_templates(),
            final(self).room_template_order() == old(self).room_template_order(),
            final(self).spells() == old(self).spells(),
    {
        self.spawnable_definitions.insert(spawnable.0, templates);
    }

    /// The entry of the spawn tables that is filed under `spawn_entry`.
    pub fn get_spawn_entry(&self, spawn_entry: SpawnEntryID) -> (entry: Option<&SpawnEntryType>)
        ensures
            entry == if self.spawn_entries().contains_key(spawn_entry.0) {
                Some(&self.spawn_entries()[spawn_entry.0])
            } else {
                None
            },
    {
        let k = spawn_entry.0;
        self.spawn_entry_definitions.get(&k)
    }

    /// Files an entry of the spawn tables under `spawn_entry`.
    pub fn set_spawn_entry(&mut self, spawn_entry: SpawnEntryID, entry: SpawnEntryType)
        requires
            old(self).wf(),
        ensures
            final(self).wf(),
            final(self).spawn_entries() == old(self).spawn_entries().insert(spawn_entry.0, entry),
            final(self).tiles() == old(self).tiles(),
            final(self).spawnables() == old(self).spawnables(),
            final(self).room_templates() == old(self).room_templates(),
            final(self).room_template_order() == old(self).room_template_order(),
            final(self).spells() == old(self).spells(),
    {
        self.spawn_entry_definitions.insert(spawn_entry.0, entry);
    }

    /// The identifiers of all room templates, in the order in which they
    /// were first filed.
    pub fn get_all_room_templates(&self) -> (ids: &Vec<RoomTemplateID>)
        requires
            self.wf(),
        ensures
            ids@ == self.room_template_order(),
            forall|i: int|
                0 <= i < ids@.len() ==> self.room_templates().contains_key((#[trigger] ids@[i]).0),
    {
        &self.room_template_ids
    }

    /// The room template that is filed under `room_template`.
    pub fn get_room_template(&self, room_template: RoomTemplateID) -> (template: Option<&RoomTemplate>)
        ensures
            template == if self.room_templates().contains_key(room_template.0) {
                Some(&self.room_templates()[room_template.0])
            } else {
                None
            },
    {
        let k = room_template.0;
        self.room_template_definitions.get(&k)
    }

    /// Files a room template under `room_template`.
    pub fn set_room_template(&mut self, room_template: RoomTemplateID, template: RoomTemplate)
        requires
            old(self).wf(),
        ensures
            final(self).wf(),
            final(self).room_templates() == old(self).room_templates().insert(
                room_template.0,
                template,
            ),
            final(self).room_template_order() == if old(self).room_templates().contains_key(
                room_template.0,
            ) {
                old(self).room_template_order()
            } else {
                old(self).room_template_order().push(room_template)
            },
            final(self).tiles() == old(self).tiles(),
            final(self).spawnables() == old(self).spawnables(),
            final(self).spawn_entries() == old(self).spawn_entries(),
            final(self).spells() == old(self).spells(),
    {
        let k = room_template.0;
        if !self.room_template_definitions.contains_key(&k) {
            self.room_template_ids.push(room_template);
        }
        self.room_template_definitions.insert(k, template);
    }

    /// The definition of the spell `spell`.
    pub fn get_spell(&self, spell: SpellDefinitionId) -> (definition: Option<&SpellDefinition>)
        ensures
            definition == if self.spells().contains_key(spell.0) {
                Some(&self.spells()[spell.0])
            } else {
                None
            },
    {
        let k = spell.0;
        self.spell_definition.get(&k)
    }

    /// Files the definition of a spell under `spell`.
    pub fn set_spell(&mut self, spell: SpellDefinitionId, definition: SpellDefinition)
        requires
            old(self).wf(),
        ensures
            final(self).wf(),
            final(self).spells() == old(self).spells().insert(spell.0, definition),
            final(self).tiles() == old(self).tiles(),
            final(self).spawnables() == old(self).spawnables(),
            final(self).spawn_entries() == old(self).spawn_entries(),
            final(self).room_templates() == old(self).room_templates(),
            final(self).room_template_order() == old(self).room_template_order(),
    {
        self.spell_definition.insert(spell.0, definition);
    }
}

} // verus!
