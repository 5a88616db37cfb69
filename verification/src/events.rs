//! Event records exchanged with the embedding application: requests it
//! queues and notifications the simulation hands back.

use vstd::prelude::*;

verus! {

/// Request to apply a gameplay effect.
#[derive(Debug)]
pub struct ApplyGameplayEffectEvent {
    /// The effect definition ID to apply.
    pub effect_id: String,
    /// The target entity.
    pub target: u64,
    /// The instigator entity (optional).
    pub instigator: Option<u64>,
    /// The level at which to apply the effect.
    pub level: i32,
}

/// Notification that an effect was applied.
#[derive(Debug)]
pub struct GameplayEffectAppliedEvent {
    /// The effect instance id.
    pub effect: u64,
    /// The target entity.
    pub target: u64,
    /// The effect definition ID.
    pub effect_id: String,
}

/// Notification that an effect was removed.
#[derive(Debug)]
pub struct GameplayEffectRemovedEvent {
    /// The effect instance id.
    pub effect: u64,
    /// The target entity.
    pub target: u64,
    /// The effect definition ID.
    pub effect_id: String,
}

/// Request to activate an ability.
#[derive(Debug, Clone, Copy, PartialEq, Eq, Structural)]
pub struct TryActivateAbilityEvent {
    /// The ability grant to activate.
    pub ability_spec: u64,
    /// The owner entity.
    pub owner: u64,
}

/// Notification that an ability was activated.
#[derive(Debug, Clone, Copy, PartialEq, Eq, Structural)]
pub struct AbilityActivatedEvent {
    /// The ability grant.
    pub ability_spec: u64,
    /// The owner entity.
    pub owner: u64,
    /// The live activation instance, for instanced policies.
    pub instance: Option<u64>,
}

/// Notification that an ability ended.
#[derive(Debug, Clone, Copy, PartialEq, Eq, Structural)]
pub struct AbilityEndedEvent {
    /// The ability grant.
    pub ability_spec: u64,
    /// The owner entity.
    pub owner: u64,
    /// The live activation instance, for instanced policies.
    pub instance: Option<u64>,
}

/// Request to commit an ability (apply costs and cooldowns).
#[derive(Debug, Clone, Copy, PartialEq, Eq, Structural)]
pub struct CommitAbilityEvent {
    /// The ability grant.
    pub ability_spec: u64,
    /// The owner entity.
    pub owner: u64,
}

/// Request to cancel an ability.
#[derive(Debug, Clone, Copy, PartialEq, Eq, Structural)]
pub struct CancelAbilityEvent {
    /// The ability grant.
    pub ability_spec: u64,
    /// The owner entity.
    pub owner: u64,
}

/// Notification that an attribute's current value changed over a tick.
///
/// At most one notification per attribute per tick, however many modifiers
/// moved it.
#[derive(Debug)]
pub struct AttributeChangedEvent {
    /// The entity that owns the attribute.
    pub owner: u64,
    /// The attribute row in the store.
    pub attribute: usize,
    /// The name of the attribute.
    pub attribute_name: String,
    /// The value at the start of the tick.
    pub old_value: i64,
    /// The value at the end of the tick.
    pub new_value: i64,
}

/// Trait for events that can be batched for performance.
///
/// This allows multiple events of the same type to be processed together
/// in a single frame, reducing overhead.
pub trait BatchableEvent {
    /// Returns true if this event can be batched with others of the same type.
    fn can_batch(&self) -> (r: bool) {
        true
    }
}

impl BatchableEvent for ApplyGameplayEffectEvent {

}

impl BatchableEvent for GameplayEffectAppliedEvent {

}

impl BatchableEvent for GameplayEffectRemovedEvent {

}

} // verus!
