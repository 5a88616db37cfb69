//! Handle types for safe references into the simulation state.
//!
//! Handles pair an id with a generation counter so that stale references
//! can be detected after the underlying record is gone.

use vstd::prelude::*;

use crate::system::GameplayAbilitySystem;

verus! {

/// A handle to a granted ability.
#[derive(Debug, Clone, Copy, PartialEq, Eq, Structural, Hash)]
pub struct AbilityHandle {
    /// The grant id this handle refers to.
    pub entity: u64,
    /// Generation counter for detecting stale references.
    pub generation: u32,
}

impl AbilityHandle {
    /// Creates a new ability handle.
    pub fn new(entity: u64, generation: u32) -> (h: Self)
        ensures
            h.entity == entity,
            h.generation == generation,
    {
        AbilityHandle { entity, generation }
    }

    /// Checks if this handle still refers to a granted ability.
    pub fn is_valid(&self, world: &GameplayAbilitySystem) -> (r: bool)
        ensures
            r == world.spec_has_ability(self.entity),
    {
        let mut j: usize = 0;
        while j < world.abilities.len()
            invariant
                0 <= j <= world.abilities@.len(),
                forall|t: int| 0 <= t < j ==> world.abilities@[t].id != self.entity,
            decreases world.abilities@.len() - j,
        {
            if world.abilities[j].id == self.entity {
                return true;
            }
            j = j + 1;
        }
        false
    }
}

/// A handle to an active gameplay effect instance.
#[derive(Debug, Clone, Copy, PartialEq, Eq, Structural, Hash)]
pub struct EffectHandle {
    /// The instance id this handle refers to.
    pub entity: u64,
    /// Generation counter for detecting stale references.
    pub generation: u32,
}

impl EffectHandle {
    /// Creates a new effect handle.
    pub fn new(entity: u64, generation: u32) -> (h: Self)
        ensures
            h.entity == entity,
            h.generation == generation,
    {
        EffectHandle { entity, generation }
    }

    /// Checks if this handle still refers to a live effect instance.
    pub fn is_valid(&self, world: &GameplayAbilitySystem) -> (r: bool)
        ensures
            r == world.spec_has_instance(self.entity),
    {
        world.has_live_instance(self.entity)
    }
}

/// A handle to an attribute row.
#[derive(Debug, Clone, Copy, PartialEq, Eq, Structural, Hash)]
pub struct AttributeHandle {
    /// The attribute row this handle refers to.
    pub entity: u64,
    /// Generation counter for detecting stale references.
    pub generation: u32,
}

impl AttributeHandle {
    /// Creates a new attribute handle.
    pub fn new(entity: u64, generation: u32) -> (h: Self)
        ensures
            h.entity == entity,
            h.generation == generation,
    {
        AttributeHandle { entity, generation }
    }

    /// Checks if this handle still refers to an attribute row.
    pub fn is_valid(&self, world: &GameplayAbilitySystem) -> (r: bool)
        ensures
            r == (self.entity < world.attributes.entries@.len()),
    {
        self.entity < world.attributes.entries.len() as u64
    }
}

} // verus!
