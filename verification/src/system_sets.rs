//! The explicit tick-phase order of the framework.
//!
//! One simulation tick runs its passes in a fixed order; reversing, say,
//! aggregation and expiry would let an expired effect's modifier still
//! influence the tick's attribute value. The order is data here, produced
//! by a verified function, rather than an implicit scheduler configuration.

use vstd::prelude::*;

verus! {

/// The top-level phases of one tick, in execution order.
#[derive(Debug, Clone, Copy, PartialEq, Eq, Structural, Hash)]
pub enum GasSystemSet {
    /// Input handling and ability activation requests.
    Input,
    /// Attribute updates and clamping.
    Attributes,
    /// Effect application and duration updates.
    Effects,
    /// Ability activation, commitment, and cancellation.
    Abilities,
    /// Gameplay cue execution.
    Cues,
    /// Cleanup and finalization.
    Cleanup,
}

/// The sub-phases of the attribute pass, in execution order.
#[derive(Debug, Clone, Copy, PartialEq, Eq, Structural, Hash)]
pub enum AttributeSystemSet {
    /// Clamp attribute values to their min/max bounds.
    Clamp,
    /// Trigger attribute change events.
    Events,
}

/// The sub-phases of the effect pass, in execution order.
#[derive(Debug, Clone, Copy, PartialEq, Eq, Structural, Hash)]
pub enum EffectSystemSet {
    /// Apply new gameplay effects.
    Apply,
    /// Create modifiers for active effects.
    CreateModifiers,
    /// Aggregate modifiers and update attribute current values.
    Aggregate,
    /// Update effect durations.
    UpdateDurations,
    /// Execute periodic effects.
    ExecutePeriodic,
    /// Remove expired effects.
    RemoveExpired,
    /// Remove instant effects (they apply once then despawn).
    RemoveInstant,
}

/// The sub-phases of the ability pass, in execution order.
#[derive(Debug, Clone, Copy, PartialEq, Eq, Structural, Hash)]
pub enum AbilitySystemSet {
    /// Try to activate abilities.
    TryActivate,
    /// Commit abilities (apply costs and cooldowns).
    Commit,
    /// End active abilities.
    End,
    /// Cancel abilities based on tags.
    Cancel,
    /// Update ability states (Ready, Active, Cooldown, Blocked).
    UpdateStates,
    /// Update ability cooldowns.
    UpdateCooldowns,
}

/// The sub-phases of the cue pass, in execution order.
#[derive(Debug, Clone, Copy, PartialEq, Eq, Structural, Hash)]
pub enum CueSystemSet {
    /// Handle cue trigger events.
    Handle,
    /// Route cues to appropriate handlers.
    Route,
    /// Execute static cues.
    ExecuteStatic,
    /// Manage cue actors.
    ManageActors,
    /// Clean up finished cues.
    Cleanup,
    /// Update WhileActive cues.
    UpdateWhileActive,
}

/// The canonical ordered list of tick phases.
pub fn configure_gas_system_sets() -> (order: Vec<GasSystemSet>)
    ensures
        order@ == seq![
            GasSystemSet::Input,
            GasSystemSet::Attributes,
            GasSystemSet::Effects,
            GasSystemSet::Abilities,
            GasSystemSet::Cues,
            GasSystemSet::Cleanup,
        ],
{
    let mut order: Vec<GasSystemSet> = Vec::new();
    order.push(GasSystemSet::Input);
    order.push(GasSystemSet::Attributes);
    order.push(GasSystemSet::Effects);
    order.push(GasSystemSet::Abilities);
    order.push(GasSystemSet::Cues);
    order.push(GasSystemSet::Cleanup);
    proof {
        assert(order@ =~= seq![
            GasSystemSet::Input,
            GasSystemSet::Attributes,
            GasSystemSet::Effects,
            GasSystemSet::Abilities,
            GasSystemSet::Cues,
            GasSystemSet::Cleanup,
        ]);
    }
    order
}

} // verus!
