//! Tests for handles, the tick-phase order and the plugin groupings.

use gameplay_ability_system::abilities::AbilityDefinition;
use gameplay_ability_system::handles::AbilityHandle;
use gameplay_ability_system::handles::AttributeHandle;
use gameplay_ability_system::handles::EffectHandle;
use gameplay_ability_system::plugin::AbilityPlugin;
use gameplay_ability_system::plugin::AttributePlugin;
use gameplay_ability_system::plugin::EffectPlugin;
use gameplay_ability_system::plugin::GasPlugin;
use gameplay_ability_system::plugin::GameplayAbilitySystemPlugin;
use gameplay_ability_system::system::GameplayAbilitySystem;
use gameplay_ability_system::system_sets::AbilitySystemSet;
use gameplay_ability_system::system_sets::AttributeSystemSet;
use gameplay_ability_system::system_sets::CueSystemSet;
use gameplay_ability_system::system_sets::EffectSystemSet;
use gameplay_ability_system::system_sets::GasSystemSet;
use gameplay_ability_system::system_sets::configure_gas_system_sets;

#[test]
fn test_ability_handle_creation() {
    let entity: u64 = 42;
    let handle = AbilityHandle::new(entity, 1);

    assert_eq!(handle.entity, entity);
    assert_eq!(handle.generation, 1);
}

#[test]
fn test_effect_handle_creation() {
    let entity: u64 = 42;
    let handle = EffectHandle::new(entity, 1);

    assert_eq!(handle.entity, entity);
    assert_eq!(handle.generation, 1);
}

#[test]
fn test_attribute_handle_creation() {
    let entity: u64 = 42;
    let handle = AttributeHandle::new(entity, 1);

    assert_eq!(handle.entity, entity);
    assert_eq!(handle.generation, 1);
}

#[test]
fn test_handle_validity_tracks_state() {
    let mut sys = GameplayAbilitySystem::new();
    sys.register_ability(AbilityDefinition::new("dash"));
    let id = sys.grant_ability(5, "dash", 1);

    assert!(AbilityHandle::new(id, 0).is_valid(&sys));
    assert!(!AbilityHandle::new(id + 1, 0).is_valid(&sys));
    assert!(!EffectHandle::new(0, 0).is_valid(&sys));
}

#[test]
fn test_system_sets_exist() {
    let _phases = (
        GasSystemSet::Input,
        GasSystemSet::Attributes,
        GasSystemSet::Effects,
        GasSystemSet::Abilities,
        GasSystemSet::Cues,
        GasSystemSet::Cleanup,
    );
    let _attribute_phases = (AttributeSystemSet::Clamp, AttributeSystemSet::Events);
    let _effect_phases = (EffectSystemSet::Apply, EffectSystemSet::Aggregate);
    let _ability_phases = (AbilitySystemSet::TryActivate, AbilitySystemSet::Commit);
    let _cue_phases = (CueSystemSet::Handle, CueSystemSet::Cleanup);
}

#[test]
fn test_configure_system_sets() {
    let order = configure_gas_system_sets();
    assert_eq!(
        order,
        vec![
            GasSystemSet::Input,
            GasSystemSet::Attributes,
            GasSystemSet::Effects,
            GasSystemSet::Abilities,
            GasSystemSet::Cues,
            GasSystemSet::Cleanup,
        ]
    );
}

#[test]
fn test_plugin_builds() {
    let mut sys = GameplayAbilitySystem::new();
    sys.attributes.create(1, "Health", 100000, None);

    AttributePlugin.build(&mut sys);
    EffectPlugin.build(&mut sys, 0);
    AbilityPlugin.build(&mut sys, 0);
    let events = GasPlugin.build(&mut sys, 0);
    assert_eq!(events.len(), 0);

    let events = GameplayAbilitySystemPlugin.build(&mut sys, 1000);
    assert_eq!(events.len(), 0);
}
