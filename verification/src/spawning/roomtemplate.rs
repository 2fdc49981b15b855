//! Room templates: what is spawned in a room, and which rooms qualify.

use vstd::prelude::*;
use crate::map::room::{QuestGenerationData, RoomGenerationData};
use crate::map::utils::fits_i32;
use crate::resources::id::SpawnEntryID;

verus! {

/// A condition on a room. The thresholds are never met themselves.
#[derive(Debug, Clone, Copy, PartialEq, Eq, Structural)]
pub enum RoomCriterion {
    /// The floor of the room is larger than the threshold.
    LargerThan(u32),
    /// The floor of the room is smaller than the threshold.
    SmallerThan(u32),
    /// The level lies above the threshold.
    DepthLessThan(u32),
    /// The level lies below the threshold.
    DepthGreaterThan(u32),
    /// The room lies more rooms from the start than the threshold.
    EarlierThan(u32),
    /// The room lies fewer rooms from the start than the threshold.
    LaterThan(u32),
}

impl RoomCriterion {
    /// Whether a room with the given floor area, at the given level and the
    /// given number of rooms from the start, meets the criterion.
    pub open spec fn holds(self, area: int, level_depth: u32, room_depth: u32) -> bool {
        match self {
            RoomCriterion::LargerThan(threshold) => area > threshold,
            RoomCriterion::SmallerThan(threshold) => area < threshold,
            RoomCriterion::DepthGreaterThan(threshold) => level_depth > threshold,
            RoomCriterion::DepthLessThan(threshold) => level_depth < threshold,
            RoomCriterion::EarlierThan(threshold) => room_depth > threshold,
            RoomCriterion::LaterThan(threshold) => room_depth < threshold,
        }
    }

    /// Whether the room meets the criterion.
    pub fn validate(&self, room_data: &RoomGenerationData, _quest_data: &QuestGenerationData) -> (b:
        bool)
        requires
            fits_i32(room_data.room.extends.width() - 1),
            fits_i32(room_data.room.extends.width() - 2),
            fits_i32(room_data.room.extends.height() - 1),
            fits_i32(room_data.room.extends.height() - 2),
            fits_i32(room_data.room.extends.inner_area()),
        ensures
            b == self.holds(
                room_data.room.extends.inner_area(),
                room_data.level_depth,
                room_data.room_depth,
            ),
    {
        match self {
            RoomCriterion::LargerThan(threshold) => room_data.get_area() > *threshold,
            RoomCriterion::SmallerThan(threshold) => room_data.get_area() < *threshold,
            RoomCriterion::DepthGreaterThan(threshold) => room_data.level_depth > *threshold,
            RoomCriterion::DepthLessThan(threshold) => room_data.level_depth < *threshold,
            RoomCriterion::EarlierThan(threshold) => room_data.room_depth > *threshold,
            RoomCriterion::LaterThan(threshold) => room_data.room_depth < *threshold,
        }
    }
}

/// What is spawned in a room, and the conditions under which a room takes
/// the template.
#[derive(Debug)]
pub struct RoomTemplate {
    pub requirements: Vec<RoomCriterion>,
    pub spawns: Vec<SpawnEntryID>,
}

impl RoomTemplate {
    /// Whether a room with the given floor area, at the given level and the
    /// given number of rooms from the start, meets every requirement of the
    /// template.
    pub open spec fn meets(self, area: int, level_depth: u32, room_depth: u32) -> bool {
        forall|i: int|
            0 <= i < self.requirements@.len() ==> (#[trigger] self.requirements@[i]).holds(
                area,
                level_depth,
                room_depth,
            )
    }

    /// Whether the room meets every requirement of the template.
    pub fn validate(&self, room_data: &RoomGenerationData, quest_data: &QuestGenerationData) -> (b:
        bool)
        requires
            fits_i32(room_data.room.extends.width() - 1),
            fits_i32(room_data.room.extends.width() - 2),
            fits_i32(room_data.room.extends.height() - 1),
            fits_i32(room_data.room.extends.height() - 2),
            fits_i32(room_data.room.extends.inner_area()),
        ensures
            b == self.meets(
                room_data.room.extends.inner_area(),
                room_data.level_depth,
                room_data.room_depth,
            ),
    {
        let mut i: usize = 0;
        while i < self.requirements.len()
            invariant
                i <= self.requirements@.len(),
                fits_i32(room_data.room.extends.width() - 1),
                fits_i32(room_data.room.extends.width() - 2),
                fits_i32(room_data.room.extends.height() - 1),
                fits_i32(room_data.room.extends.height() - 2),
                fits_i32(room_data.room.extends.inner_area()),
                forall|j: int|
                    0 <= j < i ==> (#[trigger] self.requirements@[j]).holds(
                        room_data.room.extends.inner_area(),
                        room_data.level_depth,
                        room_data.room_depth,
                    ),
            decreases self.requirements@.len() - i,
        {
            if !self.requirements[i].validate(room_data, quest_data) {
                return false;
            }
            i = i + 1;
        }
        true
    }

    /// A copy of the template with the same requirements and spawns.
    pub fn duplicate(&self) -> (t: RoomTemplate)
        ensures
            t.requirements@ == self.requirements@,
            t.spawns@ == self.spawns@,
    {
        let mut requirements: Vec<RoomCriterion> = Vec::new();
        let mut i: usize = 0;
        while i < self.requirements.len()
            invariant
                i <= self.requirements@.len(),
                requirements@ == self.requirements@.subrange(0, i as int),
            decreases self.requirements@.len() - i,
        {
            requirements.push(self.requirements[i]);
            assert(requirements@ =~= self.requirements@.subrange(0, i as int + 1));
            i = i + 1;
        }
        assert(requirements@ =~= self.requirements@);
        let mut spawns: Vec<SpawnEntryID> = Vec::new();
        let mut j: usize = 0;
        while j < self.spawns.len()
            invariant
                j <= self.spawns@.len(),
                spawns@ == self.spawns@.subrange(0, j as int),
            decreases self.spawns@.len() - j,
        {
            spawns.push(self.spawns[j]);
            assert(spawns@ =~= self.spawns@.subrange(0, j as int + 1));
            j = j + 1;
        }
        assert(spawns@ =~= self.spawns@);
        RoomTemplate { requirements, spawns }
    }
}

impl Clone for RoomTemplate {
    fn clone(&self) -> (t: RoomTemplate)
        ensures
            t.requirements@ == self.requirements@,
            t.spawns@ == self.spawns@,
    {
        self.duplicate()
    }
}

} // verus!
