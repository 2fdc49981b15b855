//! The components that an entity may carry, and the tagged union of them
//! that the store keeps.

pub mod attributes;
pub mod behavior;
pub mod combat;
pub mod effect;
pub mod health;
pub mod image;
pub mod items;
pub mod responses;
pub mod spell;
pub mod tags;

use vstd::prelude::*;
use self::attributes::{Attributes, Xp};
use self::behavior::Behavior;
use self::combat::Combat;
use self::health::Health;
use self::image::{Image, ImageState, ImageStateView};
use self::items::{Coins, Inventory};
use self::responses::{
    AttackResponse, DeathResponse, InteractResponse, NoiseResponse, PickupResponse, ResponseParts,
    ShootResponse, SpellResponse,
};
use self::spell::{SpellInstanceView, Spellbook};
use self::tags::{Door, Hazard, Monster, Player, StairsDown};
use crate::map::tile::{Los, Passable};
use crate::map::utils::Coordinate;
use crate::resources::id::ImageID;

verus! {

/// The display name of an entity.
#[derive(Debug)]
pub struct Name(pub String);

impl Clone for Name {
    fn clone(&self) -> (n: Name)
        ensures
            n == *self,
    {
        Name(self.0.clone())
    }
}

/// How the entity may be crossed by others.
#[derive(Debug, Clone, Copy, PartialEq, Eq, Structural)]
pub struct Collision(pub Passable);

/// What the entity does to a line of sight.
#[derive(Debug, Clone, Copy, PartialEq, Eq, Structural)]
pub struct SightBlocking(pub Los);

/// Where the entity stands. A position that the world holds may change only
/// through the world's relocation, which keeps the spatial index in step.
#[derive(Debug, Clone, Copy, PartialEq, Eq, Structural)]
pub struct Position(pub Coordinate);

impl Position {
    /// The position at `coordinate`.
    pub fn new(coordinate: Coordinate) -> (p: Position)
        ensures
            p == Position(coordinate),
    {
        Position(coordinate)
    }

    /// The cell of the position.
    pub fn coordinate(&self) -> (c: Coordinate)
        ensures
            c == self.0,
    {
        self.0
    }

    /// Moves the position to `destination`.
    pub fn move_to(&mut self, destination: Coordinate)
        ensures
            *final(self) == Position(destination),
    {
        self.0 = destination;
    }

    /// Whether the position is at `other`.
    pub fn is_at(&self, other: Coordinate) -> (b: bool)
        ensures
            b == (self.0 == other),
    {
        self.0 == other
    }
}

/// The component types that the store knows, each named after its component.
#[derive(Debug, Clone, Copy, PartialEq, Eq, Structural, Hash)]
pub enum ComponentType {
    Name,
    Image,
    ImageID,
    ImageState,
    Collision,
    SightBlocking,
    Position,
    Combat,
    Health,
    Xp,
    Attributes,
    Coins,
    Inventory,
    Spellbook,
    Behavior,
    Player,
    Monster,
    Door,
    StairsDown,
    Hazard,
    AttackResponse,
    ShootResponse,
    SpellResponse,
    NoiseResponse,
    InteractResponse,
    PickupResponse,
    DeathResponse,
}

/// The number of component types.
pub const COMPONENT_TYPES: usize = 27;

impl ComponentType {
    /// The place of the type among the component types, from 0.
    pub open spec fn spec_index(self) -> usize {
        match self {
            ComponentType::Name => 0,
            ComponentType::Image => 1,
            ComponentType::ImageID => 2,
            ComponentType::ImageState => 3,
            ComponentType::Collision => 4,
            ComponentType::SightBlocking => 5,
            ComponentType::Position => 6,
            ComponentType::Combat => 7,
            ComponentType::Health => 8,
            ComponentType::Xp => 9,
            ComponentType::Attributes => 10,
            ComponentType::Coins => 11,
            ComponentType::Inventory => 12,
            ComponentType::Spellbook => 13,
            ComponentType::Behavior => 14,
            ComponentType::Player => 15,
            ComponentType::Monster => 16,
            ComponentType::Door => 17,
            ComponentType::StairsDown => 18,
            ComponentType::Hazard => 19,
            ComponentType::AttackResponse => 20,
            ComponentType::ShootResponse => 21,
            ComponentType::SpellResponse => 22,
            ComponentType::NoiseResponse => 23,
            ComponentType::InteractResponse => 24,
            ComponentType::PickupResponse => 25,
            ComponentType::DeathResponse => 26,
        }
    }

    /// The place of the type among the component types, from 0.
    #[verifier::when_used_as_spec(spec_index)]
    pub fn index(self) -> (i: usize)
        ensures
            i == self.spec_index(),
            i < COMPONENT_TYPES,
    {
        match self {
            ComponentType::Name => 0,
            ComponentType::Image => 1,
            ComponentType::ImageID => 2,
            ComponentType::ImageState => 3,
            ComponentType::Collision => 4,
            ComponentType::SightBlocking => 5,
            ComponentType::Position => 6,
            ComponentType::Combat => 7,
            ComponentType::Health => 8,
            ComponentType::Xp => 9,
            ComponentType::Attributes => 10,
            ComponentType::Coins => 11,
            ComponentType::Inventory => 12,
            ComponentType::Spellbook => 13,
            ComponentType::Behavior => 14,
            ComponentType::Player => 15,
            ComponentType::Monster => 16,
            ComponentType::Door => 17,
            ComponentType::StairsDown => 18,
            ComponentType::Hazard => 19,
            ComponentType::AttackResponse => 20,
            ComponentType::ShootResponse => 21,
            ComponentType::SpellResponse => 22,
            ComponentType::NoiseResponse => 23,
            ComponentType::InteractResponse => 24,
            ComponentType::PickupResponse => 25,
            ComponentType::DeathResponse => 26,
        }
    }
}

/// Two component types with the same place are the same.
pub proof fn lemma_index_injective(a: ComponentType, b: ComponentType)
    ensures
        a.spec_index() < COMPONENT_TYPES,
        a.spec_index() == b.spec_index() ==> a == b,
{
}

/// A component of any type.
#[derive(Debug)]
pub enum Component {
    Name(Name),
    Image(Image),
    ImageID(ImageID),
    ImageState(ImageState),
    Collision(Collision),
    SightBlocking(SightBlocking),
    Position(Position),
    Combat(Combat),
    Health(Health),
    Xp(Xp),
    Attributes(Attributes),
    Coins(Coins),
    Inventory(Inventory),
    Spellbook(Spellbook),
    Behavior(Behavior),
    Player(Player),
    Monster(Monster),
    Door(Door),
    StairsDown(StairsDown),
    Hazard(Hazard),
    AttackResponse(AttackResponse),
    ShootResponse(ShootResponse),
    SpellResponse(SpellResponse),
    NoiseResponse(NoiseResponse),
    InteractResponse(InteractResponse),
    PickupResponse(PickupResponse),
    DeathResponse(DeathResponse),
}

/// What callers see of a component: the component itself, but for the two
/// that hold lists, of which they see what the lists hold.
pub enum ComponentView {
    Name(Name),
    Image(Image),
    ImageID(ImageID),
    ImageState(ImageStateView),
    Collision(Collision),
    SightBlocking(SightBlocking),
    Position(Position),
    Combat(Combat),
    Health(Health),
    Xp(Xp),
    Attributes(Attributes),
    Coins(Coins),
    Inventory(Inventory),
    Spellbook(Seq<SpellInstanceView>),
    Behavior(Behavior),
    Player(Player),
    Monster(Monster),
    Door(Door),
    StairsDown(StairsDown),
    Hazard(Hazard),
    AttackResponse(AttackResponse),
    ShootResponse(ShootResponse),
    SpellResponse(SpellResponse),
    NoiseResponse(NoiseResponse),
    InteractResponse(InteractResponse),
    PickupResponse(PickupResponse),
    DeathResponse(DeathResponse),
}

impl ComponentView {
    /// The type of the component.
    pub open spec fn component_type(self) -> ComponentType {
        match self {
            ComponentView::Name(_) => ComponentType::Name,
            ComponentView::Image(_) => ComponentType::Image,
            ComponentView::ImageID(_) => ComponentType::ImageID,
            ComponentView::ImageState(_) => ComponentType::ImageState,
            ComponentView::Collision(_) => ComponentType::Collision,
            ComponentView::SightBlocking(_) => ComponentType::SightBlocking,
            ComponentView::Position(_) => ComponentType::Position,
            ComponentView::Combat(_) => ComponentType::Combat,
            ComponentView::Health(_) => ComponentType::Health,
            ComponentView::Xp(_) => ComponentType::Xp,
            ComponentView::Attributes(_) => ComponentType::Attributes,
            ComponentView::Coins(_) => ComponentType::Coins,
            ComponentView::Inventory(_) => ComponentType::Inventory,
            ComponentView::Spellbook(_) => ComponentType::Spellbook,
            ComponentView::Behavior(_) => ComponentType::Behavior,
            ComponentView::Player(_) => ComponentType::Player,
            ComponentView::Monster(_) => ComponentType::Monster,
            ComponentView::Door(_) => ComponentType::Door,
            ComponentView::StairsDown(_) => ComponentType::StairsDown,
            ComponentView::Hazard(_) => ComponentType::Hazard,
            ComponentView::AttackResponse(_) => ComponentType::AttackResponse,
            ComponentView::ShootResponse(_) => ComponentType::ShootResponse,
            ComponentView::SpellResponse(_) => ComponentType::SpellResponse,
            ComponentView::NoiseResponse(_) => ComponentType::NoiseResponse,
            ComponentView::InteractResponse(_) => ComponentType::InteractResponse,
            ComponentView::PickupResponse(_) => ComponentType::PickupResponse,
            ComponentView::DeathResponse(_) => ComponentType::DeathResponse,
        }
    }

    /// The arguments and the reaction of a response; `None` for every other
    /// component.
    pub open spec fn response_parts(self) -> Option<ResponseParts> {
        match self {
            ComponentView::AttackResponse(r) => Some(r.parts()),
            ComponentView::ShootResponse(r) => Some(r.parts()),
            ComponentView::SpellResponse(r) => Some(r.parts()),
            ComponentView::NoiseResponse(r) => Some(r.parts()),
            ComponentView::InteractResponse(r) => Some(r.parts()),
            ComponentView::PickupResponse(r) => Some(r.parts()),
            ComponentView::DeathResponse(r) => Some(r.parts()),
            _ => None,
        }
    }
}

impl View for Component {
    type V = ComponentView;

    open spec fn view(&self) -> ComponentView {
        match self {
            Component::Name(c) => ComponentView::Name(*c),
            Component::Image(c) => ComponentView::Image(*c),
            Component::ImageID(c) => ComponentView::ImageID(*c),
            Component::ImageState(c) => ComponentView::ImageState(c@),
            Component::Collision(c) => ComponentView::Collision(*c),
            Component::SightBlocking(c) => ComponentView::SightBlocking(*c),
            Component::Position(c) => ComponentView::Position(*c),
            Component::Combat(c) => ComponentView::Combat(*c),
            Component::Health(c) => ComponentView::Health(*c),
            Component::Xp(c) => ComponentView::Xp(*c),
            Component::Attributes(c) => ComponentView::Attributes(*c),
            Component::Coins(c) => ComponentView::Coins(*c),
            Component::Inventory(c) => ComponentView::Inventory(*c),
            Component::Spellbook(c) => ComponentView::Spellbook(c@),
            Component::Behavior(c) => ComponentView::Behavior(*c),
            Component::Player(c) => ComponentView::Player(*c),
            Component::Monster(c) => ComponentView::Monster(*c),
            Component::Door(c) => ComponentView::Door(*c),
            Component::StairsDown(c) => ComponentView::StairsDown(*c),
            Component::Hazard(c) => ComponentView::Hazard(*c),
            Component::AttackResponse(c) => ComponentView::AttackResponse(*c),
            Component::ShootResponse(c) => ComponentView::ShootResponse(*c),
            Component::SpellResponse(c) => ComponentView::SpellResponse(*c),
            Component::NoiseResponse(c) => ComponentView::NoiseResponse(*c),
            Component::InteractResponse(c) => ComponentView::InteractResponse(*c),
            Component::PickupResponse(c) => ComponentView::PickupResponse(*c),
            Component::DeathResponse(c) => ComponentView::DeathResponse(*c),
        }
    }
}

impl Component {
    /// The type of the component.
    pub fn get_type(&self) -> (t: ComponentType)
        ensures
            t == self@.component_type(),
    {
        match self {
            Component::Name(_) => ComponentType::Name,
            Component::Image(_) => ComponentType::Image,
            Component::ImageID(_) => ComponentType::ImageID,
            Component::ImageState(_) => ComponentType::ImageState,
            Component::Collision(_) => ComponentType::Collision,
            Component::SightBlocking(_) => ComponentType::SightBlocking,
            Component::Position(_) => ComponentType::Position,
            Component::Combat(_) => ComponentType::Combat,
            Component::Health(_) => ComponentType::Health,
            Component::Xp(_) => ComponentType::Xp,
            Component::Attributes(_) => ComponentType::Attributes,
            Component::Coins(_) => ComponentType::Coins,
            Component::Inventory(_) => ComponentType::Inventory,
            Component::Spellbook(_) => ComponentType::Spellbook,
            Component::Behavior(_) => ComponentType::Behavior,
            Component::Player(_) => ComponentType::Player,
            Component::Monster(_) => ComponentType::Monster,
            Component::Door(_) => ComponentType::Door,
            Component::StairsDown(_) => ComponentType::StairsDown,
            Component::Hazard(_) => ComponentType::Hazard,
            Component::AttackResponse(_) => ComponentType::AttackResponse,
            Component::ShootResponse(_) => ComponentType::ShootResponse,
            Component::SpellResponse(_) => ComponentType::SpellResponse,
            Component::NoiseResponse(_) => ComponentType::NoiseResponse,
            Component::InteractResponse(_) => ComponentType::InteractResponse,
            Component::PickupResponse(_) => ComponentType::PickupResponse,
            Component::DeathResponse(_) => ComponentType::DeathResponse,
        }
    }

    /// A copy with the same view.
    pub fn duplicate(&self) -> (c: Component)
        ensures
            c@ == self@,
    {
        match self {
            Component::Name(c) => Component::Name(c.clone()),
            Component::Image(c) => Component::Image(c.clone()),
            Component::ImageID(c) => Component::ImageID(c.clone()),
            Component::ImageState(c) => Component::ImageState(c.duplicate()),
            Component::Collision(c) => Component::Collision(c.clone()),
            Component::SightBlocking(c) => Component::SightBlocking(c.clone()),
            Component::Position(c) => Component::Position(c.clone()),
            Component::Combat(c) => Component::Combat(c.clone()),
            Component::Health(c) => Component::Health(c.clone()),
            Component::Xp(c) => Component::Xp(c.clone()),
            Component::Attributes(c) => Component::Attributes(c.clone()),
            Component::Coins(c) => Component::Coins(c.clone()),
            Component::Inventory(c) => Component::Inventory(c.clone()),
            Component::Spellbook(c) => Component::Spellbook(c.duplicate()),
            Component::Behavior(c) => Component::Behavior(c.clone()),
            Component::Player(c) => Component::Player(c.clone()),
            Component::Monster(c) => Component::Monster(c.clone()),
            Component::Door(c) => Component::Door(c.clone()),
            Component::StairsDown(c) => Component::StairsDown(c.clone()),
            Component::Hazard(c) => Component::Hazard(c.clone()),
            Component::AttackResponse(c) => Component::AttackResponse(c.clone()),
            Component::ShootResponse(c) => Component::ShootResponse(c.clone()),
            Component::SpellResponse(c) => Component::SpellResponse(c.clone()),
            Component::NoiseResponse(c) => Component::NoiseResponse(c.clone()),
            Component::InteractResponse(c) => Component::InteractResponse(c.clone()),
            Component::PickupResponse(c) => Component::PickupResponse(c.clone()),
            Component::DeathResponse(c) => Component::DeathResponse(c.clone()),
        }
    }
}

impl Clone for Component {
    fn clone(&self) -> (c: Component)
        ensures
            c@ == self@,
    {
        self.duplicate()
    }
}

} // verus!
