//! Entity templates: the parts from which the components of a new entity are
//! made.

use vstd::prelude::*;
use crate::component::attributes::{level_requirement, level_requirement_fits, Attributes, Xp, XpStatus};
use crate::component::behavior::{Behavior, BehaviorName, BehaviorState};
use crate::component::combat::{
    checked_adjusted_damage, depth_damage_bonus, Attack, Combat, DamageRange,
};
use crate::component::health::{get_adjusted_health, Health};
use crate::component::image::ImageState;
use crate::component::items::{adjusted_for_depth, get_adjusted_coins, Coins};
use crate::component::responses::{
    AttackResponse, DeathResponse, InteractResponse, NoiseResponse, PickupResponse,
    ShootResponse, SpellResponse,
};
use crate::component::spell::{instance_of, SpellInstanceView, Spellbook};
use crate::component::tags::{Door, Monster, Player, StairsDown};
use crate::component::{
    Collision, Component, ComponentType, ComponentView, Name, Position, SightBlocking,
};
use crate::error::Error;
use crate::event::{Arguments, MessageArguments, ResponseFuctionName};
use crate::map::tile::{Los, Passable};
use crate::map::utils::Coordinate;
use crate::random::roll;
use crate::resources::id::{ImageID, SpellDefinitionId};
use crate::resources::serialize_spell::SpellDefinition;
use crate::resources::ResourceManager;
use crate::world::{
    lemma_component_keeps_standing, lemma_created_unindexed, lemma_created_wf,
    lemma_mark_keeps_standing, lemma_placed_consistent, lemma_same_standing_consistent, World,
    WorldView,
};

verus! {

/// A template that spawns nothing and fails when asked to.
#[derive(Debug)]
pub struct EmptyTemplate();

/// What every visible entity has: a name, an image, and how it stands in the
/// way of steps and of sight.
#[derive(Debug)]
pub struct CoreTemplate {
    pub name: String,
    pub image: ImageID,
    pub collision: Passable,
    pub los: Los,
}

/// An entity that fights.
#[derive(Debug)]
pub struct CombatTemplate {
    pub health: u32,
    pub melee_damage: Option<DamageRange>,
    pub ranged_damage: Option<DamageRange>,
    pub attack_response: Option<AttackResponse>,
    pub shoot_response: Option<ShootResponse>,
    pub spell_response: Option<SpellResponse>,
    pub death_response: Option<DeathResponse>,
}

/// An entity that can be destroyed.
#[derive(Debug)]
pub struct DestructibleTemplate {
    pub health: u32,
    pub attack_response: Option<AttackResponse>,
    pub shoot_response: Option<ShootResponse>,
    pub spell_response: Option<SpellResponse>,
    pub death_response: Option<DeathResponse>,
}

/// What an entity carries.
#[derive(Debug, Clone, Copy, PartialEq, Eq, Structural)]
pub struct InventoryTemplate {
    pub coins: Option<u32>,
}

/// The stairs to the next level.
#[derive(Debug, Clone, Copy, PartialEq, Eq, Structural)]
pub struct StairsTemplate;

/// The player.
#[derive(Debug, Clone, Copy, PartialEq, Eq, Structural)]
pub struct PlayerTemplate {
    pub level: u32,
    pub attributes: Attributes,
}

/// The spells that an entity knows from the start.
#[derive(Debug)]
pub struct SpellbookTemplate {
    pub spells: Vec<SpellDefinitionId>,
}

/// A monster.
#[derive(Debug)]
pub struct MonsterTemplate {
    pub combat_template: CombatTemplate,
    pub behavior: BehaviorName,
    pub noise_tolerance: u32,
    pub action_count: Option<u32>,
}

impl MonsterTemplate {
    /// A monster that fights at arm's length, acts once per turn and wakes
    /// up at noise of 10.
    pub fn new_from(combat_template: CombatTemplate) -> (t: MonsterTemplate)
        ensures
            t.combat_template == combat_template,
            t.behavior == BehaviorName::AggressiveMelee,
            t.noise_tolerance == 10,
            t.action_count == Some(1u32),
    {
        MonsterTemplate {
            combat_template,
            behavior: BehaviorName::AggressiveMelee,
            noise_tolerance: 10,
            action_count: Some(1),
        }
    }
}

/// Something to interact with.
#[derive(Debug)]
pub struct InteractableTemplate {
    pub response: InteractResponse,
    pub image_states: Option<ImageState>,
}

/// Something that is picked up by walking over it.
#[derive(Debug)]
pub struct PickupTemplate {
    pub inventory: InventoryTemplate,
    pub pickup_response: Option<PickupResponse>,
}

/// A door.
#[derive(Debug)]
pub struct DoorTemplate {
    pub image_states: ImageState,
    pub interact_response: Option<InteractResponse>,
}

/// The image of an open door.
pub const OPEN_DOOR_IMAGE: usize = 7;

/// The image of a closed door.
pub const CLOSED_DOOR_IMAGE: usize = 8;

impl Default for DoorTemplate {
    /// An open door with the two states `open` and `closed`.
    fn default() -> (t: DoorTemplate)
        ensures
            t.image_states@.current == "open"@,
            t.image_states@.states == seq![
                ("open"@, ImageID(OPEN_DOOR_IMAGE)),
                ("closed"@, ImageID(CLOSED_DOOR_IMAGE)),
            ],
            t.interact_response is None,
    {
        let mut image_states = ImageState::new();
        image_states.add_state("open", ImageID(OPEN_DOOR_IMAGE));
        image_states.add_state("closed", ImageID(CLOSED_DOOR_IMAGE));
        image_states.current = String::from_str("open");
        assert(image_states@.states =~= seq![
            ("open"@, ImageID(OPEN_DOOR_IMAGE)),
            ("closed"@, ImageID(CLOSED_DOOR_IMAGE)),
        ]);
        DoorTemplate { image_states, interact_response: None }
    }
}

/// A template of any kind.
#[derive(Debug)]
pub enum EntityTemplateEnum {
    Core(CoreTemplate),
    Combat(CombatTemplate),
    Door(DoorTemplate),
    Monster(MonsterTemplate),
    Player(PlayerTemplate),
    Stairs(StairsTemplate),
    Interactable(InteractableTemplate),
    Pickup(PickupTemplate),
    Inventory(InventoryTemplate),
    Destructible(DestructibleTemplate),
    Spellbook(SpellbookTemplate),
}

/// The response, or the default response where there is none.
pub open spec fn attack_response_or_default(response: Option<AttackResponse>) -> AttackResponse {
    match response {
        Some(r) => r,
        None => AttackResponse {
            args: Arguments::new(),
            msg_args: MessageArguments::new(),
            response: ResponseFuctionName::Default,
        },
    }
}

/// The response, or the default response where there is none.
pub open spec fn shoot_response_or_default(response: Option<ShootResponse>) -> ShootResponse {
    match response {
        Some(r) => r,
        None => ShootResponse {
            args: Arguments::new(),
            msg_args: MessageArguments::new(),
            response: ResponseFuctionName::Default,
        },
    }
}

/// The response, or the default response where there is none.
pub open spec fn spell_response_or_default(response: Option<SpellResponse>) -> SpellResponse {
    match response {
        Some(r) => r,
        None => SpellResponse {
            args: Arguments::new(),
            msg_args: MessageArguments::new(),
            response: ResponseFuctionName::Default,
        },
    }
}

/// The response, or the response that picks the entity up where there is
/// none.
pub open spec fn pickup_response_or_default(response: Option<PickupResponse>) -> PickupResponse {
    match response {
        Some(r) => r,
        None => PickupResponse {
            args: Arguments::new(),
            msg_args: MessageArguments::new(),
            response: ResponseFuctionName::Pickup,
        },
    }
}

/// The response, or the response that opens the door where there is none.
pub open spec fn door_response_or_default(response: Option<InteractResponse>) -> InteractResponse {
    match response {
        Some(r) => r,
        None => InteractResponse {
            args: Arguments::new(),
            msg_args: MessageArguments::new(),
            response: ResponseFuctionName::OpenDoor,
        },
    }
}

fn attack_response_of(response: &Option<AttackResponse>) -> (r: AttackResponse)
    ensures
        r == attack_response_or_default(*response),
{
    match response {
        Some(r) => r.clone(),
        None => AttackResponse::default(),
    }
}

fn shoot_response_of(response: &Option<ShootResponse>) -> (r: ShootResponse)
    ensures
        r == shoot_response_or_default(*response),
{
    match response {
        Some(r) => r.clone(),
        None => ShootResponse::default(),
    }
}

fn spell_response_of(response: &Option<SpellResponse>) -> (r: SpellResponse)
    ensures
        r == spell_response_or_default(*response),
{
    match response {
        Some(r) => r.clone(),
        None => SpellResponse::default(),
    }
}

impl WorldView {
    /// The world after `entity` got `component`, where there is one.
    pub open spec fn with_optional(self, entity: usize, component: Option<ComponentView>)
        -> WorldView {
        match component {
            Some(c) => self.with_component(entity, c),
            None => self,
        }
    }
}

impl EmptyTemplate {
    /// Fails: an empty template spawns nothing.
    pub fn add_components(
        &self,
        _entity: usize,
        _world: &mut World,
        _depth: u32,
        _resources: &ResourceManager,
    ) -> (r: Result<(), Error>)
        ensures
            r == Err::<(), Error>(Error::EmptyTemplate),
            *final(_world) == *old(_world),
    {
        Err(Error::EmptyTemplate)
    }
}

impl CoreTemplate {
    /// The world after the template gave its components to `entity`.
    pub open spec fn applied(self, world: WorldView, entity: usize) -> WorldView {
        world.with_component(entity, ComponentView::Name(Name(self.name))).with_component(
            entity,
            ComponentView::ImageID(self.image),
        ).with_component(entity, ComponentView::Collision(Collision(self.collision))).with_component(
            entity,
            ComponentView::SightBlocking(SightBlocking(self.los)),
        )
    }

    /// Gives `entity` its name, its image, and how it stands in the way of
    /// steps and of sight. Fails where `entity` was never created.
    pub fn add_components(
        &self,
        entity: usize,
        world: &mut World,
        _depth: u32,
        _resources: &ResourceManager,
    ) -> (r: Result<(), Error>)
        requires
            old(world).wf(),
        ensures
            final(world).wf(),
            entity >= old(world)@.entity_count ==> r == Err::<(), Error>(Error::OutOfBounds)
                && final(world)@ == old(world)@,
            entity < old(world)@.entity_count ==> r is Ok && final(world)@ == self.applied(
                old(world)@,
                entity,
            ),
    {
        let name = Name(self.name.clone());
        let image = self.image;
        let collision = Collision(self.collision);
        let sight_block = SightBlocking(self.los);

        world.add_component(entity, Component::Name(name))?;
        world.add_component(entity, Component::ImageID(image))?;
        world.add_component(entity, Component::Collision(collision))?;
        world.add_component(entity, Component::SightBlocking(sight_block))?;

        Ok(())
    }
}

/// The world after an entity got hit points and the three responses of
/// something that can be attacked, and the response to its death where
/// there is one.
pub open spec fn with_destructible(
    world: WorldView,
    entity: usize,
    health: u32,
    attack_response: Option<AttackResponse>,
    shoot_response: Option<ShootResponse>,
    spell_response: Option<SpellResponse>,
    death_response: Option<DeathResponse>,
) -> WorldView {
    world.with_component(
        entity,
        ComponentView::AttackResponse(attack_response_or_default(attack_response)),
    ).with_component(
        entity,
        ComponentView::ShootResponse(shoot_response_or_default(shoot_response)),
    ).with_component(
        entity,
        ComponentView::SpellResponse(spell_response_or_default(spell_response)),
    ).with_optional(
        entity,
        match death_response {
            Some(r) => Some(ComponentView::DeathResponse(r)),
            None => None,
        },
    )
}

impl CombatTemplate {
    /// The attacks of the template.
    pub open spec fn combat(self) -> Combat {
        Combat {
            melee_attack: match self.melee_damage {
                Some(range) => Some(Attack::spec_melee(range.0, range.1)),
                None => None,
            },
            ranged_attack: match self.ranged_damage {
                Some(range) => Some(Attack::spec_ranged(range.0, range.1)),
                None => None,
            },
        }
    }

    /// The world after the template gave its components to `entity`.
    pub open spec fn applied(self, world: WorldView, entity: usize) -> WorldView {
        with_destructible(
            world.with_component(
                entity,
                ComponentView::Health(Health(self.health, self.health)),
            ).with_component(entity, ComponentView::Combat(self.combat())),
            entity,
            self.health,
            self.attack_response,
            self.shoot_response,
            self.spell_response,
            self.death_response,
        )
    }

    /// Gives `entity` hit points, attacks and the responses to attacks and
    /// spells. Fails where `entity` was never created.
    pub fn add_components(
        &self,
        entity: usize,
        world: &mut World,
        _depth: u32,
        _resources: &ResourceManager,
    ) -> (r: Result<(), Error>)
        requires
            old(world).wf(),
        ensures
            final(world).wf(),
            entity >= old(world)@.entity_count ==> r == Err::<(), Error>(Error::OutOfBounds)
                && final(world)@ == old(world)@,
            entity < old(world)@.entity_count ==> r is Ok && final(world)@ == self.applied(
                old(world)@,
                entity,
            ),
    {
        let health = Health::new(self.health);
        let melee_attack = Attack::optional_melee(self.melee_damage);
        let ranged_attack = Attack::optional_ranged(self.ranged_damage);
        let combat = Combat::new(melee_attack, ranged_attack);

        let attack_response = attack_response_of(&self.attack_response);
        let shoot_response = shoot_response_of(&self.shoot_response);
        let spell_response = spell_response_of(&self.spell_response);

        world.add_component(entity, Component::Health(health))?;
        world.add_component(entity, Component::Combat(combat))?;
        world.add_component(entity, Component::AttackResponse(attack_response))?;
        world.add_component(entity, Component::ShootResponse(shoot_response))?;
        world.add_component(entity, Component::SpellResponse(spell_response))?;

        if let Some(death_response) = &self.death_response {
            world.add_component(entity, Component::DeathResponse(death_response.clone()))?;
        }
        Ok(())
    }
}

impl DestructibleTemplate {
    /// The world after the template gave its components to `entity`.
    pub open spec fn applied(self, world: WorldView, entity: usize) -> WorldView {
        with_destructible(
            world.with_component(entity, ComponentView::Health(Health(self.health, self.health))),
            entity,
            self.health,
            self.attack_response,
            self.shoot_response,
            self.spell_response,
            self.death_response,
        )
    }

    /// Gives `entity` hit points and the responses to attacks and spells.
    /// Fails where `entity` was never created.
    pub fn add_components(
        &self,
        entity: usize,
        world: &mut World,
        _depth: u32,
        _resources: &ResourceManager,
    ) -> (r: Result<(), Error>)
        requires
            old(world).wf(),
        ensures
            final(world).wf(),
            entity >= old(world)@.entity_count ==> r == Err::<(), Error>(Error::OutOfBounds)
                && final(world)@ == old(world)@,
            entity < old(world)@.entity_count ==> r is Ok && final(world)@ == self.applied(
                old(world)@,
                entity,
            ),
    {
        let health = Health::new(self.health);
        let attack_response = attack_response_of(&self.attack_response);
        let shoot_response = shoot_response_of(&self.shoot_response);
        let spell_response = spell_response_of(&self.spell_response);

        world.add_component(entity, Component::Health(health))?;
        world.add_component(entity, Component::AttackResponse(attack_response))?;
        world.add_component(entity, Component::ShootResponse(shoot_response))?;
        world.add_component(entity, Component::SpellResponse(spell_response))?;

        if let Some(death_response) = &self.death_response {
            world.add_component(entity, Component::DeathResponse(death_response.clone()))?;
        }
        Ok(())
    }
}

impl InventoryTemplate {
    /// Whether `after` is the world `before` after the template gave its
    /// components to `entity` at `depth`, with the outcome `r`: coins, where
    /// the template lists any, raised for the depth and moved by chance.
    pub open spec fn applies(
        self,
        before: WorldView,
        after: WorldView,
        entity: usize,
        depth: u32,
        r: Result<(), Error>,
    ) -> bool {
        match self.coins {
            None => r is Ok && after == before,
            Some(amount) => if depth == 0 {
                r == Err::<(), Error>(Error::Overflow) && after == before
            } else if entity >= before.entity_count {
                r == Err::<(), Error>(Error::OutOfBounds) && after == before
            } else {
                r is Ok && exists|factor: u32|
                    800 <= factor < 1200 && after == #[trigger] before.with_component(
                        entity,
                        ComponentView::Coins(
                            Coins(adjusted_for_depth(amount, depth, 1200, factor) as u32),
                        ),
                    )
            },
        }
    }

    /// Gives `entity` its coins, where the template lists any. Fails where
    /// coins are listed and `depth` is zero or `entity` was never created.
    pub fn add_components(
        &self,
        entity: usize,
        world: &mut World,
        depth: u32,
        _resources: &ResourceManager,
    ) -> (r: Result<(), Error>)
        requires
            old(world).wf(),
        ensures
            final(world).wf(),
            self.applies(old(world)@, final(world)@, entity, depth, r),
    {
        if let Some(amount) = self.coins {
            if depth == 0 {
                return Err(Error::Overflow);
            }
            let adjusted_amount = get_adjusted_coins(amount, depth);
            let ghost factor = choose|factor: u32|
                800 <= factor < 1200 && adjusted_amount == #[trigger] adjusted_for_depth(
                    amount,
                    depth,
                    1200,
                    factor,
                );
            world.add_component(entity, Component::Coins(Coins(adjusted_amount)))?;
            assert(world@ == old(world)@.with_component(
                entity,
                ComponentView::Coins(Coins(adjusted_for_depth(amount, depth, 1200, factor) as u32)),
            ));
        }
        Ok(())
    }
}

impl StairsTemplate {
    /// Marks `entity` as stairs. Fails where `entity` was never created.
    pub fn add_components(
        &self,
        entity: usize,
        world: &mut World,
        _depth: u32,
        _resources: &ResourceManager,
    ) -> (r: Result<(), Error>)
        requires
            old(world).wf(),
        ensures
            final(world).wf(),
            entity >= old(world)@.entity_count ==> r == Err::<(), Error>(Error::OutOfBounds)
                && final(world)@ == old(world)@,
            entity < old(world)@.entity_count ==> r is Ok
                && final(world)@ == old(world)@.with_component(entity, ComponentView::StairsDown(StairsDown)),
    {
        world.add_component(entity, Component::StairsDown(StairsDown))?;
        Ok(())
    }
}

impl PlayerTemplate {
    /// The attributes of the template with one point more in the attribute
    /// that `stat` numbers: 0 for might, 1 for wit, 2 for skill.
    pub open spec fn raised(self, stat: u64) -> Attributes {
        if stat == 0 {
            Attributes { might: (self.attributes.might + 1) as u32, ..self.attributes }
        } else if stat == 1 {
            Attributes { wit: (self.attributes.wit + 1) as u32, ..self.attributes }
        } else {
            Attributes { skill: (self.attributes.skill + 1) as u32, ..self.attributes }
        }
    }

    /// Whether the template can be applied without leaving the range of
    /// `u32`: the level's requirement is one, and every attribute can grow
    /// by one.
    pub open spec fn in_bounds(self) -> bool {
        &&& level_requirement(self.level as nat) <= u32::MAX
        &&& self.attributes.might < u32::MAX
        &&& self.attributes.wit < u32::MAX
        &&& self.attributes.skill < u32::MAX
    }

    /// Whether `after` is the world `before` after the template made
    /// `entity` the player, with the outcome `r`: the entity has the
    /// attributes of the template with one point more in one of them, no
    /// experience at the template's level, and the mark of the player.
    pub open spec fn applies(
        self,
        before: WorldView,
        after: WorldView,
        entity: usize,
        r: Result<(), Error>,
    ) -> bool {
        if !self.in_bounds() {
            r == Err::<(), Error>(Error::Overflow) && after == before
        } else if entity >= before.entity_count {
            r == Err::<(), Error>(Error::OutOfBounds) && after == before
        } else {
            r is Ok && exists|stat: u64|
                0 <= stat <= 2 && after == #[trigger] before.with_component(
                    entity,
                    ComponentView::Attributes(self.raised(stat)),
                ).with_component(
                    entity,
                    ComponentView::Xp(
                        Xp {
                            level: self.level,
                            current: 0,
                            max: level_requirement(self.level as nat) as u32,
                            status: XpStatus::Default,
                        },
                    ),
                ).marked(entity)
        }
    }

    /// Makes `entity` the player. One attribute, chosen by chance, is a
    /// point above the template's.
    pub fn add_components(
        &self,
        entity: usize,
        world: &mut World,
        _depth: u32,
        _resources: &ResourceManager,
    ) -> (r: Result<(), Error>)
        requires
            old(world).wf(),
        ensures
            final(world).wf(),
            self.applies(old(world)@, final(world)@, entity, r),
    {
        if !level_requirement_fits(self.level) || self.attributes.might == u32::MAX
            || self.attributes.wit == u32::MAX || self.attributes.skill == u32::MAX {
            return Err(Error::Overflow);
        }
        let xp = Xp::new(self.level);
        let mut attributes = self.attributes;
        let random_stat_index = roll(0, 2);
        if random_stat_index == 0 {
            attributes.might += 1;
        } else if random_stat_index == 1 {
            attributes.wit += 1;
        } else {
            attributes.skill += 1;
        }
        assert(attributes == self.raised(random_stat_index as u64));
        world.add_component(entity, Component::Attributes(attributes))?;
        world.add_component(entity, Component::Xp(xp))?;
        world.mark_as_player(entity)?;
        Ok(())
    }
}

/// The spells of `ids` that `resources` defines, in order.
pub open spec fn defined_spells(ids: Seq<SpellDefinitionId>, resources: &ResourceManager) -> Seq<
    SpellInstanceView,
>
    decreases ids.len(),
{
    if ids.len() == 0 {
        Seq::empty()
    } else {
        let rest = defined_spells(ids.drop_last(), resources);
        if resources.spells().contains_key(ids.last().0) {
            rest.push(instance_of(resources.spells()[ids.last().0]))
        } else {
            rest
        }
    }
}

/// By how many casts the wit of `entity` raises its spells: its wit above
/// one, where it has attributes.
pub open spec fn wit_bonus(world: WorldView, entity: usize) -> u32 {
    match world.component(ComponentType::Attributes, entity) {
        Some(ComponentView::Attributes(a)) => if a.wit > 1 {
            (a.wit - 1) as u32
        } else {
            0
        },
        _ => 0,
    }
}

/// Whether every spell of `spells` can take `amount` more casts.
pub open spec fn casts_fit(spells: Seq<SpellInstanceView>, amount: u32) -> bool {
    forall|i: int|
        0 <= i < spells.len() ==> (#[trigger] spells[i]).casts_left + amount <= u32::MAX
            && spells[i].casts_max + amount <= u32::MAX
}

impl SpellbookTemplate {
    /// The book that the template gives to `entity`.
    pub open spec fn book(self, world: WorldView, entity: usize, resources: &ResourceManager)
        -> Seq<SpellInstanceView> {
        let spells = defined_spells(self.spells@, resources);
        Seq::new(spells.len(), |i: int| spells[i].with_more_casts(wit_bonus(world, entity)))
    }

    /// Gives `entity` a book with the spells of the template that are
    /// defined, each with as many casts more as the entity's wit exceeds one.
    /// Fails where a number of casts would leave the range of `u32`, and
    /// where `entity` was never created.
    pub fn add_components(
        &self,
        entity: usize,
        world: &mut World,
        _depth: u32,
        resources: &ResourceManager,
    ) -> (r: Result<(), Error>)
        requires
            old(world).wf(),
        ensures
            final(world).wf(),
            !casts_fit(defined_spells(self.spells@, resources), wit_bonus(old(world)@, entity))
                ==> r
                == Err::<(), Error>(Error::Overflow) && final(world)@ == old(world)@,
            casts_fit(defined_spells(self.spells@, resources), wit_bonus(old(world)@, entity))
                && entity >= old(world)@.entity_count ==> r == Err::<(), Error>(Error::OutOfBounds)
                && final(world)@ == old(world)@,
            casts_fit(defined_spells(self.spells@, resources), wit_bonus(old(world)@, entity))
                && entity < old(world)@.entity_count ==> r is Ok
                && final(world)@ == old(world)@.with_component(
                entity,
                ComponentView::Spellbook(self.book(old(world)@, entity, resources)),
            ),
    {
        let mut definitions: Vec<&SpellDefinition> = Vec::new();
        let mut i: usize = 0;
        assert(self.spells@.take(0) =~= Seq::<SpellDefinitionId>::empty());
        while i < self.spells.len()
            invariant
                i <= self.spells@.len(),
                Seq::new(definitions@.len(), |j: int| instance_of(*definitions@[j]))
                    == defined_spells(self.spells@.take(i as int), resources),
            decreases self.spells@.len() - i,
        {
            let ghost before = Seq::new(definitions@.len(), |j: int| instance_of(*definitions@[j]));
            proof {
                assert(self.spells@.take(i as int + 1).drop_last() =~= self.spells@.take(i as int));
                assert(self.spells@.take(i as int + 1).last() == self.spells@[i as int]);
            }
            match resources.get_spell(self.spells[i]) {
                Some(definition) => {
                    definitions.push(definition);
                    assert(Seq::new(definitions@.len(), |j: int| instance_of(*definitions@[j]))
                        =~= before.push(instance_of(*definition)));
                },
                None => {},
            }
            i = i + 1;
        }
        assert(self.spells@.take(i as int) =~= self.spells@);
        let mut spellbook = Spellbook::new(definitions);
        let wit_increase: u32 = match world.borrow_entity_component(
            ComponentType::Attributes,
            entity,
        ) {
            Some(Component::Attributes(a)) => if a.wit > 1 {
                a.wit - 1
            } else {
                0
            },
            _ => 0,
        };
        assert(wit_increase == wit_bonus(world@, entity));
        let mut j: usize = 0;
        while j < spellbook.spells.len()
            invariant
                j <= spellbook.spells@.len(),
                world.wf(),
                *world == *old(world),
                wit_increase == wit_bonus(old(world)@, entity),
                spellbook@ == defined_spells(self.spells@, resources),
                forall|k: int|
                    0 <= k < j ==> (#[trigger] spellbook@[k]).casts_left + wit_increase <= u32::MAX
                        && spellbook@[k].casts_max + wit_increase <= u32::MAX,
            decreases spellbook.spells@.len() - j,
        {
            assert(spellbook@[j as int] == spellbook.spells@[j as int]@);
            if spellbook.spells[j].casts_left > u32::MAX - wit_increase
                || spellbook.spells[j].casts_max > u32::MAX - wit_increase {
                assert(!(defined_spells(self.spells@, resources)[j as int].casts_left + wit_increase
                    <= u32::MAX && defined_spells(self.spells@, resources)[j as int].casts_max
                    + wit_increase <= u32::MAX));
                return Err(Error::Overflow);
            }
            j = j + 1;
        }
        spellbook.on_wit_increased(wit_increase);
        assert(spellbook@ =~= self.book(old(world)@, entity, resources));
        world.add_component(entity, Component::Spellbook(spellbook))?;
        Ok(())
    }
}

impl InteractableTemplate {
    /// The world after the template gave its components to `entity`.
    pub open spec fn applied(self, world: WorldView, entity: usize) -> WorldView {
        world.with_component(entity, ComponentView::InteractResponse(self.response)).with_optional(
            entity,
            match self.image_states {
                Some(states) => Some(ComponentView::ImageState(states@)),
                None => None,
            },
        )
    }

    /// Gives `entity` its response to interaction, and its image states
    /// where the template has any. Fails where `entity` was never created.
    pub fn add_components(
        &self,
        entity: usize,
        world: &mut World,
        _depth: u32,
        _resources: &ResourceManager,
    ) -> (r: Result<(), Error>)
        requires
            old(world).wf(),
        ensures
            final(world).wf(),
            entity >= old(world)@.entity_count ==> r == Err::<(), Error>(Error::OutOfBounds)
                && final(world)@ == old(world)@,
            entity < old(world)@.entity_count ==> r is Ok && final(world)@ == self.applied(
                old(world)@,
                entity,
            ),
    {
        let response = self.response.clone();
        world.add_component(entity, Component::InteractResponse(response))?;
        if let Some(image_states) = &self.image_states {
            world.add_component(entity, Component::ImageState(image_states.duplicate()))?;
        }
        Ok(())
    }
}

impl PickupTemplate {
    /// Whether `after` is the world `before` after the template gave its
    /// components to `entity` at `depth`, with the outcome `r`.
    pub open spec fn applies(
        self,
        before: WorldView,
        after: WorldView,
        entity: usize,
        depth: u32,
        r: Result<(), Error>,
    ) -> bool {
        exists|middle: WorldView, first: Result<(), Error>| #[trigger]
            self.inventory.applies(before, middle, entity, depth, first) && match first {
                Err(e) => r == first && after == middle,
                Ok(()) => if entity >= before.entity_count {
                    r == Err::<(), Error>(Error::OutOfBounds) && after == middle
                } else {
                    r is Ok && after == middle.with_component(
                        entity,
                        ComponentView::PickupResponse(
                            pickup_response_or_default(self.pickup_response),
                        ),
                    )
                },
            }
    }

    /// Gives `entity` what it carries and its response to being walked over.
    pub fn add_components(
        &self,
        entity: usize,
        world: &mut World,
        depth: u32,
        resources: &ResourceManager,
    ) -> (r: Result<(), Error>)
        requires
            old(world).wf(),
        ensures
            final(world).wf(),
            self.applies(old(world)@, final(world)@, entity, depth, r),
    {
        let pickup_response = match &self.pickup_response {
            Some(r) => r.clone(),
            None => PickupResponse::default(),
        };
        let first = self.inventory.add_components(entity, world, depth, resources);
        let ghost middle = world@;
        match first {
            Err(e) => {
                assert(self.inventory.applies(old(world)@, middle, entity, depth, first));
                return Err(e);
            },
            Ok(()) => {},
        }
        let r = world.add_component(entity, Component::PickupResponse(pickup_response));
        assert(self.inventory.applies(old(world)@, middle, entity, depth, first));
        match r {
            Err(e) => Err(e),
            Ok(()) => Ok(()),
        }
    }
}

impl DoorTemplate {
    /// The world after the template gave its components to `entity`.
    pub open spec fn applied(self, world: WorldView, entity: usize) -> WorldView {
        world.with_component(entity, ComponentView::ImageState(self.image_states@)).with_component(
            entity,
            ComponentView::InteractResponse(door_response_or_default(self.interact_response)),
        ).with_component(entity, ComponentView::Door(Door))
    }

    /// Makes `entity` a door: with its image states and its response to
    /// interaction, which opens the door unless the template says otherwise.
    /// Fails where `entity` was never created.
    pub fn add_components(
        &self,
        entity: usize,
        world: &mut World,
        _depth: u32,
        _resources: &ResourceManager,
    ) -> (r: Result<(), Error>)
        requires
            old(world).wf(),
        ensures
            final(world).wf(),
            entity >= old(world)@.entity_count ==> r == Err::<(), Error>(Error::OutOfBounds)
                && final(world)@ == old(world)@,
            entity < old(world)@.entity_count ==> r is Ok && final(world)@ == self.applied(
                old(world)@,
                entity,
            ),
    {
        let image_states = self.image_states.duplicate();
        let interact_response = match &self.interact_response {
            Some(r) => r.clone(),
            None => InteractResponse {
                args: Arguments::new(),
                msg_args: MessageArguments::new(),
                response: ResponseFuctionName::OpenDoor,
            },
        };
        world.add_component(entity, Component::ImageState(image_states))?;
        world.add_component(entity, Component::InteractResponse(interact_response))?;
        world.add_component(entity, Component::Door(Door))?;
        Ok(())
    }
}

/// `attack` with its damage raised for `depth`.
pub open spec fn adjusted_attack(attack: Option<Attack>, depth: u32) -> Option<Attack> {
    match attack {
        Some(a) => Some(
            Attack {
                damage_min: (a.damage_min + depth_damage_bonus(depth)) as u32,
                damage_max: (a.damage_max + depth_damage_bonus(depth)) as u32,
                ..a
            },
        ),
        None => None,
    }
}

/// Whether the damage of `attack`, raised for `depth`, stays within `u32`.
pub open spec fn attack_fits(attack: Option<Attack>, depth: u32) -> bool {
    match attack {
        Some(a) => a.damage_min + depth_damage_bonus(depth) <= u32::MAX && a.damage_max
            + depth_damage_bonus(depth) <= u32::MAX,
        None => true,
    }
}

fn adjust_attack(attack: Option<Attack>, depth: u32) -> (r: Option<Option<Attack>>)
    ensures
        r is Some <==> depth >= 1 && attack_fits(attack, depth),
        r is Some ==> r->0 == adjusted_attack(attack, depth),
{
    if depth == 0 {
        return None;
    }
    match attack {
        None => Some(None),
        Some(a) => {
            match (
                checked_adjusted_damage(a.damage_min, depth),
                checked_adjusted_damage(a.damage_max, depth),
            ) {
                (Some(min), Some(max)) => Some(
                    Some(
                        Attack {
                            damage_min: min,
                            damage_max: max,
                            damage_type: a.damage_type,
                            attack_type: a.attack_type,
                            range: a.range,
                        },
                    ),
                ),
                _ => None,
            }
        },
    }
}

impl MonsterTemplate {
    /// Whether the damage of the monster can be raised for `depth`.
    pub open spec fn in_bounds(self, depth: u32) -> bool {
        &&& depth >= 1
        &&& attack_fits(self.combat_template.combat().melee_attack, depth)
        &&& attack_fits(self.combat_template.combat().ranged_attack, depth)
    }

    /// Whether `after` is the world `before` after the template made
    /// `entity` a monster at `depth`, with the outcome `r`: it has what its
    /// combat template gives, its response to noise, its behavior and the
    /// mark of a monster; its hit points are raised for the depth and moved
    /// by chance, and its damage is raised for the depth.
    pub open spec fn applies(
        self,
        before: WorldView,
        after: WorldView,
        entity: usize,
        depth: u32,
        r: Result<(), Error>,
    ) -> bool {
        if entity >= before.entity_count {
            r == Err::<(), Error>(Error::OutOfBounds) && after == before
        } else if !self.in_bounds(depth) {
            r == Err::<(), Error>(Error::Overflow) && after == before
        } else {
            r is Ok && exists|factor: u32|
                900 <= factor < 1100 && after == #[trigger] self.applied(
                    before,
                    entity,
                    depth,
                    factor,
                )
        }
    }

    /// The world after the template made `entity` a monster at `depth`,
    /// where chance moved its hit points by `factor` thousandths.
    pub open spec fn applied(self, world: WorldView, entity: usize, depth: u32, factor: u32)
        -> WorldView {
        let health = adjusted_for_depth(self.combat_template.health, depth, 1100, factor) as u32;
        self.combat_template.applied(world, entity).with_component(
            entity,
            ComponentView::NoiseResponse(
                NoiseResponse {
                    threshold: self.noise_tolerance,
                    args: Arguments::new(),
                    msg_args: MessageArguments::new(),
                    response: ResponseFuctionName::Default,
                },
            ),
        ).with_component(
            entity,
            ComponentView::Behavior(
                Behavior {
                    state: BehaviorState::Asleep,
                    behavior: self.behavior,
                    action_count: match self.action_count {
                        Some(n) => n,
                        None => 1,
                    },
                },
            ),
        ).with_component(entity, ComponentView::Monster(Monster)).with_component(
            entity,
            ComponentView::Health(Health(health, health)),
        ).with_component(
            entity,
            ComponentView::Combat(
                Combat {
                    melee_attack: adjusted_attack(self.combat_template.combat().melee_attack, depth),
                    ranged_attack: adjusted_attack(
                        self.combat_template.combat().ranged_attack,
                        depth,
                    ),
                },
            ),
        )
    }

    /// Makes `entity` a monster at `depth`. Fails where `entity` was never
    /// created, and where `depth` is zero or the damage would leave the range
    /// of `u32`.
    pub fn add_components(
        &self,
        entity: usize,
        world: &mut World,
        depth: u32,
        resources: &ResourceManager,
    ) -> (r: Result<(), Error>)
        requires
            old(world).wf(),
        ensures
            final(world).wf(),
            self.applies(old(world)@, final(world)@, entity, depth, r),
    {
        if entity >= world.entity_count() {
            return Err(Error::OutOfBounds);
        }
        let melee = adjust_attack(Attack::optional_melee(self.combat_template.melee_damage), depth);
        let ranged = adjust_attack(
            Attack::optional_ranged(self.combat_template.ranged_damage),
            depth,
        );
        let (melee, ranged) = match (melee, ranged) {
            (Some(m), Some(r)) => (m, r),
            _ => {
                return Err(Error::Overflow);
            },
        };
        let noise_response = NoiseResponse::new(self.noise_tolerance);
        let behavior = Behavior::new(self.behavior, self.action_count);

        self.combat_template.add_components(entity, world, depth, resources)?;
        world.add_component(entity, Component::NoiseResponse(noise_response))?;
        world.add_component(entity, Component::Behavior(behavior))?;
        world.add_component(entity, Component::Monster(Monster))?;

        let adjusted_health = get_adjusted_health(self.combat_template.health, depth);
        let ghost factor = choose|factor: u32|
            900 <= factor < 1100 && adjusted_health == #[trigger] adjusted_for_depth(
                self.combat_template.health,
                depth,
                1100,
                factor,
            );
        world.add_component(entity, Component::Health(Health(adjusted_health, adjusted_health)))?;
        world.add_component(
            entity,
            Component::Combat(Combat { melee_attack: melee, ranged_attack: ranged }),
        )?;
        assert(world@ == self.applied(old(world)@, entity, depth, factor));
        Ok(())
    }
}

impl EntityTemplateEnum {
    /// Whether `after` is the world `before` after the template gave its
    /// components to `entity`, with the outcome `r`.
    pub open spec fn applies(
        self,
        before: WorldView,
        after: WorldView,
        entity: usize,
        depth: u32,
        resources: &ResourceManager,
        r: Result<(), Error>,
    ) -> bool {
        match self {
            EntityTemplateEnum::Core(t) => applies_plainly(
                before,
                after,
                entity,
                t.applied(before, entity),
                r,
            ),
            EntityTemplateEnum::Combat(t) => applies_plainly(
                before,
                after,
                entity,
                t.applied(before, entity),
                r,
            ),
            EntityTemplateEnum::Door(t) => applies_plainly(
                before,
                after,
                entity,
                t.applied(before, entity),
                r,
            ),
            EntityTemplateEnum::Monster(t) => t.applies(before, after, entity, depth, r),
            EntityTemplateEnum::Player(t) => t.applies(before, after, entity, r),
            EntityTemplateEnum::Stairs(t) => applies_plainly(
                before,
                after,
                entity,
                before.with_component(entity, ComponentView::StairsDown(StairsDown)),
                r,
            ),
            EntityTemplateEnum::Interactable(t) => applies_plainly(
                before,
                after,
                entity,
                t.applied(before, entity),
                r,
            ),
            EntityTemplateEnum::Pickup(t) => t.applies(before, after, entity, depth, r),
            EntityTemplateEnum::Inventory(t) => t.applies(before, after, entity, depth, r),
            EntityTemplateEnum::Destructible(t) => applies_plainly(
                before,
                after,
                entity,
                t.applied(before, entity),
                r,
            ),
            EntityTemplateEnum::Spellbook(t) => if !casts_fit(
                defined_spells(t.spells@, resources),
                wit_bonus(before, entity),
            ) {
                r == Err::<(), Error>(Error::Overflow) && after == before
            } else {
                applies_plainly(
                    before,
                    after,
                    entity,
                    before.with_component(
                        entity,
                        ComponentView::Spellbook(t.book(before, entity, resources)),
                    ),
                    r,
                )
            },
        }
    }

    /// Gives `entity` the components of the template.
    pub fn add_components(
        &self,
        entity: usize,
        world: &mut World,
        depth: u32,
        resources: &ResourceManager,
    ) -> (r: Result<(), Error>)
        requires
            old(world).wf(),
        ensures
            final(world).wf(),
            final(world)@.entity_count == old(world)@.entity_count,
            final(world)@.bsp == old(world)@.bsp,
            self.applies(old(world)@, final(world)@, entity, depth, resources, r),
    {
        let r = match self {
            EntityTemplateEnum::Core(t) => t.add_components(entity, world, depth, resources),
            EntityTemplateEnum::Combat(t) => t.add_components(entity, world, depth, resources),
            EntityTemplateEnum::Door(t) => t.add_components(entity, world, depth, resources),
            EntityTemplateEnum::Monster(t) => t.add_components(entity, world, depth, resources),
            EntityTemplateEnum::Player(t) => t.add_components(entity, world, depth, resources),
            EntityTemplateEnum::Stairs(t) => t.add_components(entity, world, depth, resources),
            EntityTemplateEnum::Interactable(t) => t.add_components(
                entity,
                world,
                depth,
                resources,
            ),
            EntityTemplateEnum::Pickup(t) => t.add_components(entity, world, depth, resources),
            EntityTemplateEnum::Inventory(t) => t.add_components(entity, world, depth, resources),
            EntityTemplateEnum::Destructible(t) => t.add_components(
                entity,
                world,
                depth,
                resources,
            ),
            EntityTemplateEnum::Spellbook(t) => t.add_components(entity, world, depth, resources),
        };
        proof {
            self.lemma_applies_keeps_regions(old(world)@, world@, entity, depth, resources, r);
        }
        r
    }

    /// No template makes or moves an entity: the number of entities, the
    /// regions and the positions stay as they are.
    pub proof fn lemma_applies_keeps_regions(
        self,
        before: WorldView,
        after: WorldView,
        entity: usize,
        depth: u32,
        resources: &ResourceManager,
        r: Result<(), Error>,
    )
        requires
            self.applies(before, after, entity, depth, resources, r),
        ensures
            after.entity_count == before.entity_count,
            after.bsp == before.bsp,
            after.same_standing(before),
    {
        match self {
            EntityTemplateEnum::Core(t) => {
                lemma_core_keeps_standing(t, before, entity);
            },
            EntityTemplateEnum::Combat(t) => {
                lemma_combat_keeps_standing(t, before, entity);
            },
            EntityTemplateEnum::Door(t) => {
                lemma_door_keeps_standing(t, before, entity);
            },
            EntityTemplateEnum::Monster(t) => {
                lemma_monster_keeps_standing(t, before, after, entity, depth, r);
            },
            EntityTemplateEnum::Player(t) => {
                lemma_player_keeps_standing(t, before, after, entity, r);
            },
            EntityTemplateEnum::Stairs(_) => {
                lemma_component_keeps_standing(
                    before,
                    entity,
                    ComponentView::StairsDown(StairsDown),
                );
            },
            EntityTemplateEnum::Interactable(t) => {
                lemma_interactable_keeps_standing(t, before, entity);
            },
            EntityTemplateEnum::Pickup(t) => {
                let (middle, first) = choose|middle: WorldView, first: Result<(), Error>| #[trigger]
                    t.inventory.applies(before, middle, entity, depth, first) && match first {
                        Err(e) => r == first && after == middle,
                        Ok(()) => if entity >= before.entity_count {
                            r == Err::<(), Error>(Error::OutOfBounds) && after == middle
                        } else {
                            r is Ok && after == middle.with_component(
                                entity,
                                ComponentView::PickupResponse(
                                    pickup_response_or_default(t.pickup_response),
                                ),
                            )
                        },
                    };
                lemma_inventory_keeps_standing(t.inventory, before, middle, entity, depth, first);
                lemma_component_keeps_standing(
                    middle,
                    entity,
                    ComponentView::PickupResponse(pickup_response_or_default(t.pickup_response)),
                );
            },
            EntityTemplateEnum::Inventory(t) => {
                lemma_inventory_keeps_standing(t, before, after, entity, depth, r);
            },
            EntityTemplateEnum::Destructible(t) => {
                let healthy = before.with_component(
                    entity,
                    ComponentView::Health(Health(t.health, t.health)),
                );
                lemma_component_keeps_standing(
                    before,
                    entity,
                    ComponentView::Health(Health(t.health, t.health)),
                );
                lemma_destructible_keeps_standing(
                    healthy,
                    entity,
                    t.health,
                    t.attack_response,
                    t.shoot_response,
                    t.spell_response,
                    t.death_response,
                );
            },
            EntityTemplateEnum::Spellbook(t) => {
                lemma_component_keeps_standing(
                    before,
                    entity,
                    ComponentView::Spellbook(t.book(before, entity, resources)),
                );
            },
        }
    }
}

/// The components of something that can be attacked make and move nothing.
proof fn lemma_destructible_keeps_standing(
    world: WorldView,
    entity: usize,
    health: u32,
    attack_response: Option<AttackResponse>,
    shoot_response: Option<ShootResponse>,
    spell_response: Option<SpellResponse>,
    death_response: Option<DeathResponse>,
)
    ensures
        with_destructible(
            world,
            entity,
            health,
            attack_response,
            shoot_response,
            spell_response,
            death_response,
        ).same_standing(world),
{
    let attack = ComponentView::AttackResponse(attack_response_or_default(attack_response));
    let shoot = ComponentView::ShootResponse(shoot_response_or_default(shoot_response));
    let spell = ComponentView::SpellResponse(spell_response_or_default(spell_response));
    let first = world.with_component(entity, attack);
    let second = first.with_component(entity, shoot);
    let third = second.with_component(entity, spell);
    lemma_component_keeps_standing(world, entity, attack);
    lemma_component_keeps_standing(first, entity, shoot);
    lemma_component_keeps_standing(second, entity, spell);
    if let Some(response) = death_response {
        lemma_component_keeps_standing(third, entity, ComponentView::DeathResponse(response));
    }
}

/// The components of a core template make and move nothing.
proof fn lemma_core_keeps_standing(t: CoreTemplate, world: WorldView, entity: usize)
    ensures
        t.applied(world, entity).same_standing(world),
{
    let name = ComponentView::Name(Name(t.name));
    let image = ComponentView::ImageID(t.image);
    let collision = ComponentView::Collision(Collision(t.collision));
    let sight = ComponentView::SightBlocking(SightBlocking(t.los));
    let first = world.with_component(entity, name);
    let second = first.with_component(entity, image);
    let third = second.with_component(entity, collision);
    lemma_component_keeps_standing(world, entity, name);
    lemma_component_keeps_standing(first, entity, image);
    lemma_component_keeps_standing(second, entity, collision);
    lemma_component_keeps_standing(third, entity, sight);
}

/// The components of a combat template make and move nothing.
proof fn lemma_combat_keeps_standing(t: CombatTemplate, world: WorldView, entity: usize)
    ensures
        t.applied(world, entity).same_standing(world),
{
    let health = ComponentView::Health(Health(t.health, t.health));
    let combat = ComponentView::Combat(t.combat());
    let first = world.with_component(entity, health);
    let second = first.with_component(entity, combat);
    lemma_component_keeps_standing(world, entity, health);
    lemma_component_keeps_standing(first, entity, combat);
    lemma_destructible_keeps_standing(
        second,
        entity,
        t.health,
        t.attack_response,
        t.shoot_response,
        t.spell_response,
        t.death_response,
    );
}

/// The components of a door make and move nothing.
proof fn lemma_door_keeps_standing(t: DoorTemplate, world: WorldView, entity: usize)
    ensures
        t.applied(world, entity).same_standing(world),
{
    let states = ComponentView::ImageState(t.image_states@);
    let response = ComponentView::InteractResponse(door_response_or_default(t.interact_response));
    let first = world.with_component(entity, states);
    let second = first.with_component(entity, response);
    lemma_component_keeps_standing(world, entity, states);
    lemma_component_keeps_standing(first, entity, response);
    lemma_component_keeps_standing(second, entity, ComponentView::Door(Door));
}

/// The components of something to interact with make and move nothing.
proof fn lemma_interactable_keeps_standing(t: InteractableTemplate, world: WorldView, entity: usize)
    ensures
        t.applied(world, entity).same_standing(world),
{
    let response = ComponentView::InteractResponse(t.response);
    let first = world.with_component(entity, response);
    lemma_component_keeps_standing(world, entity, response);
    if let Some(states) = t.image_states {
        lemma_component_keeps_standing(first, entity, ComponentView::ImageState(states@));
    }
}

/// What an entity carries makes and moves nothing.
proof fn lemma_inventory_keeps_standing(
    t: InventoryTemplate,
    before: WorldView,
    after: WorldView,
    entity: usize,
    depth: u32,
    r: Result<(), Error>,
)
    requires
        t.applies(before, after, entity, depth, r),
    ensures
        after.same_standing(before),
{
    if let Some(amount) = t.coins {
        if depth != 0 && entity < before.entity_count {
            let factor = choose|factor: u32|
                800 <= factor < 1200 && after == #[trigger] before.with_component(
                    entity,
                    ComponentView::Coins(
                        Coins(adjusted_for_depth(amount, depth, 1200, factor) as u32),
                    ),
                );
            lemma_component_keeps_standing(
                before,
                entity,
                ComponentView::Coins(Coins(adjusted_for_depth(amount, depth, 1200, factor) as u32)),
            );
        }
    }
}

/// Making an entity the player makes and moves nothing.
proof fn lemma_player_keeps_standing(
    t: PlayerTemplate,
    before: WorldView,
    after: WorldView,
    entity: usize,
    r: Result<(), Error>,
)
    requires
        t.applies(before, after, entity, r),
    ensures
        after.same_standing(before),
{
    if t.in_bounds() && entity < before.entity_count {
        let xp = ComponentView::Xp(
            Xp {
                level: t.level,
                current: 0,
                max: level_requirement(t.level as nat) as u32,
                status: XpStatus::Default,
            },
        );
        let stat = choose|stat: u64|
            0 <= stat <= 2 && after == #[trigger] before.with_component(
                entity,
                ComponentView::Attributes(t.raised(stat)),
            ).with_component(entity, xp).marked(entity);
        let first = before.with_component(entity, ComponentView::Attributes(t.raised(stat)));
        let second = first.with_component(entity, xp);
        lemma_component_keeps_standing(before, entity, ComponentView::Attributes(t.raised(stat)));
        lemma_component_keeps_standing(first, entity, xp);
        lemma_mark_keeps_standing(second, entity);
    }
}

/// Making an entity a monster makes and moves nothing.
proof fn lemma_monster_keeps_standing(
    t: MonsterTemplate,
    before: WorldView,
    after: WorldView,
    entity: usize,
    depth: u32,
    r: Result<(), Error>,
)
    requires
        t.applies(before, after, entity, depth, r),
    ensures
        after.same_standing(before),
{
    if entity < before.entity_count && t.in_bounds(depth) {
        let factor = choose|factor: u32|
            900 <= factor < 1100 && after == #[trigger] t.applied(before, entity, depth, factor);
        lemma_monster_applied_keeps_standing(t, before, entity, depth, factor);
    }
}

/// The components of a monster make and move nothing.
proof fn lemma_monster_applied_keeps_standing(
    t: MonsterTemplate,
    world: WorldView,
    entity: usize,
    depth: u32,
    factor: u32,
)
    ensures
        t.applied(world, entity, depth, factor).same_standing(world),
{
    let health = adjusted_for_depth(t.combat_template.health, depth, 1100, factor) as u32;
    let noise = ComponentView::NoiseResponse(
        NoiseResponse {
            threshold: t.noise_tolerance,
            args: Arguments::new(),
            msg_args: MessageArguments::new(),
            response: ResponseFuctionName::Default,
        },
    );
    let behavior = ComponentView::Behavior(
        Behavior {
            state: BehaviorState::Asleep,
            behavior: t.behavior,
            action_count: match t.action_count {
                Some(n) => n,
                None => 1,
            },
        },
    );
    let combat = ComponentView::Combat(
        Combat {
            melee_attack: adjusted_attack(t.combat_template.combat().melee_attack, depth),
            ranged_attack: adjusted_attack(t.combat_template.combat().ranged_attack, depth),
        },
    );
    let first = t.combat_template.applied(world, entity);
    let second = first.with_component(entity, noise);
    let third = second.with_component(entity, behavior);
    let fourth = third.with_component(entity, ComponentView::Monster(Monster));
    let fifth = fourth.with_component(entity, ComponentView::Health(Health(health, health)));
    lemma_combat_keeps_standing(t.combat_template, world, entity);
    lemma_component_keeps_standing(first, entity, noise);
    lemma_component_keeps_standing(second, entity, behavior);
    lemma_component_keeps_standing(third, entity, ComponentView::Monster(Monster));
    lemma_component_keeps_standing(fourth, entity, ComponentView::Health(Health(health, health)));
    lemma_component_keeps_standing(fifth, entity, combat);
}

/// Whether `after` and `r` are what a template leaves that fails on an
/// entity that was never created, and else turns `before` into `applied`.
pub open spec fn applies_plainly(
    before: WorldView,
    after: WorldView,
    entity: usize,
    applied: WorldView,
    r: Result<(), Error>,
) -> bool {
    if entity >= before.entity_count {
        r == Err::<(), Error>(Error::OutOfBounds) && after == before
    } else {
        r is Ok && after == applied
    }
}

/// Whether `after` is the world `before` after the templates gave their
/// components to `entity` one after the other, up to the first that failed,
/// with the outcome `r`.
pub open spec fn templates_apply(
    templates: Seq<&EntityTemplateEnum>,
    before: WorldView,
    after: WorldView,
    entity: usize,
    depth: u32,
    resources: &ResourceManager,
    r: Result<(), Error>,
) -> bool
    decreases templates.len(),
{
    if templates.len() == 0 {
        r is Ok && after == before
    } else {
        exists|middle: WorldView, first: Result<(), Error>| #[trigger]
            templates[0].applies(before, middle, entity, depth, resources, first) && match first {
                Err(e) => r == first && after == middle,
                Ok(()) => templates_apply(
                    templates.drop_first(),
                    middle,
                    after,
                    entity,
                    depth,
                    resources,
                    r,
                ),
            }
    }
}

/// Whether `after` is the world `before` after an entity was spawned from
/// `templates` at `position`, with the outcome `r`: the entity is created,
/// gets the components of the templates, and is placed.
pub open spec fn spawned(
    templates: Seq<&EntityTemplateEnum>,
    before: WorldView,
    after: WorldView,
    depth: u32,
    position: Coordinate,
    resources: &ResourceManager,
    r: Result<usize, Error>,
) -> bool {
    if before.entity_count >= usize::MAX {
        r == Err::<usize, Error>(Error::Overflow) && after == before
    } else {
        exists|middle: WorldView, first: Result<(), Error>| #[trigger]
            templates_apply(
                templates,
                before.created(),
                middle,
                before.entity_count as usize,
                depth,
                resources,
                first,
            ) && match first {
                Err(e) => r == Err::<usize, Error>(e) && after == middle,
                Ok(()) => r == Ok::<usize, Error>(before.entity_count as usize) && after
                    == middle.placed(before.entity_count as usize, Position(position)),
            }
    }
}

/// Templates make and move nothing, however many are applied.
pub proof fn lemma_templates_keep_standing(
    templates: Seq<&EntityTemplateEnum>,
    before: WorldView,
    after: WorldView,
    entity: usize,
    depth: u32,
    resources: &ResourceManager,
    r: Result<(), Error>,
)
    requires
        templates_apply(templates, before, after, entity, depth, resources, r),
    ensures
        after.same_standing(before),
    decreases templates.len(),
{
    if templates.len() > 0 {
        let (middle, first) = choose|middle: WorldView, first: Result<(), Error>| #[trigger]
            templates[0].applies(before, middle, entity, depth, resources, first) && match first {
                Err(e) => r == first && after == middle,
                Ok(()) => templates_apply(
                    templates.drop_first(),
                    middle,
                    after,
                    entity,
                    depth,
                    resources,
                    r,
                ),
            };
        templates[0].lemma_applies_keeps_regions(before, middle, entity, depth, resources, first);
        if first is Ok {
            lemma_templates_keep_standing(
                templates.drop_first(),
                middle,
                after,
                entity,
                depth,
                resources,
                r,
            );
        }
    }
}

/// Spawning keeps the spatial index consistent: where every entity with a
/// position stood exactly once in the regions, and that in the region in
/// which its position is looked up, so it is after an entity was spawned,
/// whether or not a template failed.
pub proof fn lemma_spawn_keeps_consistency(
    templates: Seq<&EntityTemplateEnum>,
    before: WorldView,
    after: WorldView,
    depth: u32,
    position: Coordinate,
    resources: &ResourceManager,
    r: Result<usize, Error>,
)
    requires
        before.wf(),
        before.spatially_consistent(),
        spawned(templates, before, after, depth, position, resources, r),
    ensures
        after.spatially_consistent(),
{
    if before.entity_count < usize::MAX {
        let entity = before.entity_count as usize;
        let created = before.created();
        let (middle, first) = choose|middle: WorldView, first: Result<(), Error>| #[trigger]
            templates_apply(templates, created, middle, entity, depth, resources, first)
                && match first {
                Err(e) => r == Err::<usize, Error>(e) && after == middle,
                Ok(()) => r == Ok::<usize, Error>(entity) && after == middle.placed(
                    entity,
                    Position(position),
                ),
            };
        lemma_created_wf(before);
        lemma_created_unindexed(before);
        lemma_templates_keep_standing(templates, created, middle, entity, depth, resources, first);
        lemma_same_standing_consistent(created, middle);
        if first is Ok {
            lemma_placed_consistent(middle, entity, Position(position));
        }
    }
}

fn apply_templates(
    templates: &Vec<&EntityTemplateEnum>,
    from: usize,
    entity: usize,
    world: &mut World,
    depth: u32,
    resources: &ResourceManager,
) -> (r: Result<(), Error>)
    requires
        old(world).wf(),
        from <= templates@.len(),
    ensures
        final(world).wf(),
        final(world)@.entity_count == old(world)@.entity_count,
        final(world)@.bsp == old(world)@.bsp,
        templates_apply(
            templates@.subrange(from as int, templates@.len() as int),
            old(world)@,
            final(world)@,
            entity,
            depth,
            resources,
            r,
        ),
    decreases templates@.len() - from,
{
    let ghost rest = templates@.subrange(from as int, templates@.len() as int);
    if from >= templates.len() {
        return Ok(());
    }
    assert(rest[0] == templates@[from as int]);
    assert(rest.drop_first() =~= templates@.subrange(from as int + 1, templates@.len() as int));
    let first = templates[from].add_components(entity, world, depth, resources);
    let ghost middle = world@;
    match first {
        Err(e) => {
            assert(rest[0].applies(old(world)@, middle, entity, depth, resources, first));
            Err(e)
        },
        Ok(()) => {
            let r = apply_templates(templates, from + 1, entity, world, depth, resources);
            assert(rest[0].applies(old(world)@, middle, entity, depth, resources, first));
            r
        },
    }
}

impl World {
    /// Spawns an entity at `position`: creates it, gives it the components
    /// of `templates`, one template after the other, and places it. Where a
    /// template fails, the entity stays as far as it came.
    pub fn spawn_from_templates(
        &mut self,
        templates: &Vec<&EntityTemplateEnum>,
        depth: u32,
        position: Coordinate,
        resources: &ResourceManager,
    ) -> (r: Result<usize, Error>)
        requires
            old(self).wf(),
        ensures
            final(self).wf(),
            final(self)@.entity_count >= old(self)@.entity_count,
            spawned(templates@, old(self)@, final(self)@, depth, position, resources, r),
            old(self)@.spatially_consistent() ==> final(self)@.spatially_consistent(),
    {
        proof {
            old(self).lemma_wf();
        }
        if self.entity_count() == usize::MAX {
            return Err(Error::Overflow);
        }
        let entity: usize = self.new_entity();
        let ghost created = self@;
        let first = apply_templates(templates, 0, entity, self, depth, resources);
        let ghost middle = self@;
        assert(templates@.subrange(0, templates@.len() as int) =~= templates@);
        assert(templates_apply(templates@, created, middle, entity, depth, resources, first));
        let r = match first {
            Err(e) => Err(e),
            Ok(()) => {
                let _ = self.add_position(entity, Position::new(position));
                Ok(entity)
            },
        };
        proof {
            if old(self)@.spatially_consistent() {
                lemma_spawn_keeps_consistency(
                    templates@,
                    old(self)@,
                    self@,
                    depth,
                    position,
                    resources,
                    r,
                );
            }
        }
        r
    }
}

} // verus!
