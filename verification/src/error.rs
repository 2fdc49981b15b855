//! The failures that the library reports.

use vstd::prelude::*;
use crate::component::ComponentType;
use crate::component::behavior::{AIAction, BehaviorName};
use crate::component::combat::AttackType;
use crate::map::utils::Coordinate;

verus! {

/// Why a monster could not take its turn.
#[derive(Debug, Clone, Copy, PartialEq, Eq, Structural)]
pub enum MonsterTurnError {
    NoPlayerFound,
    NoAttackFound { entity: usize, attack_type: AttackType },
    NoPathfindingData { entity: usize, coordinate: Coordinate },
    NoPositionFound { entity: usize },
    ActionNotImplemented { entity: usize, action: AIAction },
    BehaviorNotImplemented { entity: usize, behavior: BehaviorName },
    FailedToCompleteAction { entity: usize, action: AIAction },
}

/// Why an operation failed.
#[derive(Debug, Clone, Copy, PartialEq, Eq, Structural)]
pub enum Error {
    /// The entity id is not below the number of entities.
    OutOfBounds,
    /// No column was ever created for the component type.
    UnknownComponentType,
    /// No column exists for a component type that the operation needs.
    MissingColumn(ComponentType),
    /// The entity lacks a component that the operation needs.
    MissingComponent { entity: usize, component: ComponentType },
    /// No entity is marked as the player, or the player has no position.
    NoPlayerFound,
    /// The target of a command cannot be acted upon.
    InvalidTarget,
    /// The image state asked for is not among the states of the entity.
    InvalidImageState,
    /// The attacker has no attack of the kind asked for.
    NoAttack(AttackType),
    /// The least value of a range to draw from exceeds its largest value, or
    /// a list to draw from is empty.
    EmptyRange,
    /// A room that is to be filled from a template has no depth.
    NoRoomDepth,
    /// The spell has no casts left.
    OutOfCasts,
    /// No spell is filed under the index or identifier.
    NoSuchSpell,
    /// No room could be chosen as the target.
    NoTargetRoom,
    /// A box is too small to be split further.
    CannotSplit,
    /// No entry of the spawn tables is filed under the identifier.
    NoSpawnEntry,
    /// No cell of the room admits the spawn.
    NoLegalLocation,
    /// An empty template was asked to spawn.
    EmptyTemplate,
    /// No level could be generated.
    LevelGenerationFailed,
    /// A sum or a product left the range of its type.
    Overflow,
    /// Events set off further events beyond the depth that is followed.
    CascadeTooDeep,
    /// A monster could not take its turn.
    MonsterTurnError(MonsterTurnError),
}

impl Error {
    /// The failure that stands for a failed monster turn.
    pub fn from_monster_turn(error: MonsterTurnError) -> (e: Error)
        ensures
            e == Error::MonsterTurnError(error),
    {
        Error::MonsterTurnError(error)
    }
}

} // verus!
