//! Plugin groupings: each bundles one subsystem's per-tick passes so an
//! embedding application can drive them separately, or all at once through
//! the umbrella plugins.

use vstd::prelude::*;

use crate::events::AttributeChangedEvent;
use crate::system::GameplayAbilitySystem;

verus! {

/// Bundles the attribute subsystem's per-tick work: clamping every
/// attribute to its bounds.
#[derive(Debug, Clone, Copy, PartialEq, Eq, Structural)]
pub struct AttributePlugin;

impl AttributePlugin {
    /// Runs the attribute phase of a tick: one clamping pass.
    pub fn build(&self, sys: &mut GameplayAbilitySystem)
        requires
            old(sys).wf(),
        ensures
            final (sys).wf(),
            final (sys).attributes.spec_all_clamped(),
            GameplayAbilitySystem::spec_clamp_pass_transition(*old(sys), *final (sys)),
    {
        sys.clamp_attributes_system();
    }
}

/// Bundles the effect subsystem's per-tick work: timers, periodic
/// executions, removal of finished instances and modifier aggregation.
#[derive(Debug, Clone, Copy, PartialEq, Eq, Structural)]
pub struct EffectPlugin;

impl EffectPlugin {
    /// Runs the effect phases of a tick in their mandated order: duration
    /// timers, periodic executions, expiry removal, instant removal, then
    /// aggregation — so an effect expiring this tick cannot contribute to
    /// this tick's aggregated value.
    pub fn build(&self, sys: &mut GameplayAbilitySystem, dt: i64)
        requires
            old(sys).wf(),
            0 <= dt,
        ensures
            final (sys).wf(),
            GameplayAbilitySystem::spec_effect_phases_transition(
                *old(sys),
                *final (sys),
                dt as int,
            ),
    {
        sys.update_effect_durations_system(dt);
        let ghost after_durations = *sys;
        sys.execute_periodic_effects_system(dt);
        let ghost after_periodic = *sys;
        sys.remove_expired_effects_system();
        let ghost after_expiry = *sys;
        sys.remove_instant_effects_system();
        let ghost after_instant = *sys;
        sys.aggregate_attribute_modifiers_system();
        proof {
            assert(GameplayAbilitySystem::spec_effect_phase_chain(
                *old(sys),
                after_durations,
                after_periodic,
                after_expiry,
                after_instant,
                *sys,
                dt as int,
            ));
        }
    }
}

/// Bundles the ability subsystem's per-tick work: cooldowns, tag-driven
/// cancellation and state projection.
#[derive(Debug, Clone, Copy, PartialEq, Eq, Structural)]
pub struct AbilityPlugin;

impl AbilityPlugin {
    /// Runs the ability phases of a tick in their mandated order: cooldown
    /// countdown, tag-driven cancellation, then state projection.
    pub fn build(&self, sys: &mut GameplayAbilitySystem, dt: i64)
        requires
            old(sys).wf(),
        ensures
            final (sys).wf(),
            GameplayAbilitySystem::spec_ability_phases_transition(
                *old(sys),
                *final (sys),
                dt as int,
            ),
    {
        sys.update_ability_cooldowns_system(dt);
        let ghost after_cooldowns = *sys;
        sys.cancel_abilities_by_tags_system();
        let ghost after_cancel = *sys;
        sys.update_ability_states_system();
        proof {
            assert(GameplayAbilitySystem::spec_ability_phase_chain(
                *old(sys),
                after_cooldowns,
                after_cancel,
                *sys,
                dt as int,
            ));
        }
    }
}

/// Marker for the cue subsystem: cue bookkeeping lives in the cue manager
/// and runs no per-tick pass over the simulation state.
#[derive(Debug, Clone, Copy, PartialEq, Eq, Structural)]
pub struct CuePlugin;

/// The umbrella plugin: one tick of the whole framework in the mandated
/// pass order.
#[derive(Debug, Clone, Copy, PartialEq, Eq, Structural)]
pub struct GasPlugin;

impl GasPlugin {
    /// Runs one full tick and returns the attribute change notifications.
    pub fn build(&self, sys: &mut GameplayAbilitySystem, dt: i64) -> (events: Vec<
        AttributeChangedEvent,
    >)
        requires
            old(sys).wf(),
            0 <= dt,
        ensures
            final (sys).wf(),
            final (sys).attributes.spec_all_clamped(),
            GameplayAbilitySystem::spec_tick_transition(*old(sys), *final (sys), dt as int),
            GameplayAbilitySystem::spec_events_match(
                Seq::new(
                    old(sys).attributes.entries@.len(),
                    |i: int| old(sys).attributes.entries@[i].data.current_value,
                ),
                final (sys).attributes.entries@,
                events@,
            ),
    {
        sys.tick(dt)
    }
}

/// Marker for the ability grouping of the framework.
#[derive(Debug, Clone, Copy, PartialEq, Eq, Structural)]
pub struct GameplayAbilityPlugin;

/// Marker for the effect grouping of the framework.
#[derive(Debug, Clone, Copy, PartialEq, Eq, Structural)]
pub struct GameplayEffectPlugin;

/// Marker for the cue grouping of the framework.
#[derive(Debug, Clone, Copy, PartialEq, Eq, Structural)]
pub struct GameplayCuePlugin;

/// Marker for the targeting grouping of the framework; targeting holds no
/// simulation logic of its own.
#[derive(Debug, Clone, Copy, PartialEq, Eq, Structural)]
pub struct GameplayAbilityTargetingPlugin;

/// The framework umbrella under its full name: drives one tick, like
/// `GasPlugin`.
#[derive(Debug, Clone, Copy, PartialEq, Eq, Structural)]
pub struct GameplayAbilitySystemPlugin;

impl GameplayAbilitySystemPlugin {
    /// Runs one full tick and returns the attribute change notifications.
    pub fn build(&self, sys: &mut GameplayAbilitySystem, dt: i64) -> (events: Vec<
        AttributeChangedEvent,
    >)
        requires
            old(sys).wf(),
            0 <= dt,
        ensures
            final (sys).wf(),
            final (sys).attributes.spec_all_clamped(),
            GameplayAbilitySystem::spec_tick_transition(*old(sys), *final (sys), dt as int),
            GameplayAbilitySystem::spec_events_match(
                Seq::new(
                    old(sys).attributes.entries@.len(),
                    |i: int| old(sys).attributes.entries@[i].data.current_value,
                ),
                final (sys).attributes.entries@,
                events@,
            ),
    {
        sys.tick(dt)
    }
}

} // verus!
