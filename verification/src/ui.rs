//! What of the game is shown: plain values for the front end to draw.

use vstd::prelude::*;
use crate::error::Error;
use crate::map::GameMap;

verus! {

/// The state of the player as it is shown.
#[derive(Debug)]
pub struct PlayerModel {
    pub name: String,
    pub level: u32,
    pub coins: u32,
    pub xp_current: u32,
    pub xp_goal: u32,
    pub hp_current: u32,
    pub hp_max: u32,
    pub might: u32,
    pub wit: u32,
    pub skill: u32,
    /// The least and the largest damage of the melee attack.
    pub melee_damage: (u32, u32),
    /// The least and the largest damage of the ranged attack.
    pub ranged_damage: (u32, u32),
}

/// What callers see of a `PlayerModel`.
pub struct PlayerModelView {
    pub name: Seq<char>,
    pub level: u32,
    pub coins: u32,
    pub xp_current: u32,
    pub xp_goal: u32,
    pub hp_current: u32,
    pub hp_max: u32,
    pub might: u32,
    pub wit: u32,
    pub skill: u32,
    pub melee_damage: (u32, u32),
    pub ranged_damage: (u32, u32),
}

impl PlayerModelView {
    /// No name and zeros.
    pub open spec fn blank() -> PlayerModelView {
        PlayerModelView {
            name: Seq::empty(),
            level: 0,
            coins: 0,
            xp_current: 0,
            xp_goal: 0,
            hp_current: 0,
            hp_max: 0,
            might: 0,
            wit: 0,
            skill: 0,
            melee_damage: (0, 0),
            ranged_damage: (0, 0),
        }
    }
}

impl View for PlayerModel {
    type V = PlayerModelView;

    open spec fn view(&self) -> PlayerModelView {
        PlayerModelView {
            name: self.name@,
            level: self.level,
            coins: self.coins,
            xp_current: self.xp_current,
            xp_goal: self.xp_goal,
            hp_current: self.hp_current,
            hp_max: self.hp_max,
            might: self.might,
            wit: self.wit,
            skill: self.skill,
            melee_damage: self.melee_damage,
            ranged_damage: self.ranged_damage,
        }
    }
}

impl PlayerModel {
    /// No name and zeros.
    pub fn new() -> (model: PlayerModel)
        ensures
            model@ == PlayerModelView::blank(),
    {
        PlayerModel {
            name: String::new(),
            level: 0,
            coins: 0,
            xp_current: 0,
            xp_goal: 0,
            hp_current: 0,
            hp_max: 0,
            might: 0,
            wit: 0,
            skill: 0,
            melee_damage: (0, 0),
            ranged_damage: (0, 0),
        }
    }
}

/// The size and the depth of the map as they are shown.
#[derive(Debug, Clone, Copy, PartialEq, Eq, Structural)]
pub struct MapModel {
    pub width: u32,
    pub height: u32,
    pub depth: u32,
}

impl MapModel {
    /// The model of `map`.
    pub open spec fn of(map: &GameMap) -> MapModel {
        MapModel { width: map.width, height: map.height, depth: map.depth }
    }

    /// The model of `map`.
    pub fn from_map(map: &GameMap) -> (model: MapModel)
        ensures
            model == MapModel::of(map),
    {
        MapModel { width: map.width, height: map.height, depth: map.depth }
    }
}

impl Default for MapModel {
    fn default() -> (model: MapModel)
        ensures
            model == (MapModel { width: 0, height: 0, depth: 0 }),
    {
        MapModel { width: 0, height: 0, depth: 0 }
    }
}

/// The spells of the player as they are shown: the names, and for each
/// spell the casts that are left and the casts at most.
#[derive(Debug)]
pub struct SpellbookModel {
    pub names: Vec<String>,
    pub casts: Vec<(u32, u32)>,
}

/// What callers see of a `SpellbookModel`.
pub struct SpellbookModelView {
    pub names: Seq<Seq<char>>,
    pub casts: Seq<(u32, u32)>,
}

impl View for SpellbookModel {
    type V = SpellbookModelView;

    open spec fn view(&self) -> SpellbookModelView {
        SpellbookModelView {
            names: Seq::new(self.names@.len(), |i: int| self.names@[i]@),
            casts: self.casts@,
        }
    }
}

impl SpellbookModel {
    /// No spells.
    pub fn new() -> (model: SpellbookModel)
        ensures
            model.names@.len() == 0,
            model.casts@.len() == 0,
    {
        SpellbookModel { names: Vec::new(), casts: Vec::new() }
    }
}

/// What the player may ask for.
#[derive(Debug, Clone, Copy, PartialEq, Eq, Structural)]
pub enum InputCommand {
    /// Act one step in a direction.
    Direction,
    /// Walk to a cell.
    Position,
    /// Shoot at a cell.
    Shoot,
    /// Attack what stands one step in a direction, hostile or not.
    ForceAttack,
    /// Shoot at what stands at a cell, hostile or not.
    ForceShoot,
    /// Cast a spell at a cell.
    Spell,
    /// Take the stairs down.
    Descend,
    /// Let a turn pass.
    Wait,
    /// Raise an attribute at the next level of experience.
    LevelUp,
    /// Leave the game.
    Quit,
    /// Begin a new game.
    Restart,
    /// No command.
    Unrecognized,
}

/// Why an input was not carried out.
#[derive(Debug, Clone, Copy, PartialEq, Eq, Structural)]
pub enum Refusal {
    /// The place of the spell in the book is below zero.
    SpellIndex,
    /// The number names no attribute.
    Attribute,
    /// The amount is below zero.
    Amount,
    /// The input is no command.
    Command,
}

/// What an input came to.
#[derive(Debug, Clone, Copy, PartialEq, Eq)]
pub enum Reaction {
    /// The command was carried out, with this outcome.
    Done(Result<(), Error>),
    /// The input was not carried out.
    Refused(Refusal),
    /// The game is to be left: that is for the caller to do.
    Quit,
}

/// What is shown on top of the game.
#[derive(Debug, Clone, Copy, PartialEq, Eq, Structural)]
pub struct Popups {
    pub death: bool,
    pub level_up: bool,
}

} // verus!
