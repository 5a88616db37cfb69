//! Tests for ability specs, definitions, cooldowns and the ability
//! registry. Values are fixed-point thousandths: 5.0 is written 5000.

use gameplay_ability_system::abilities::AbilityCooldown;
use gameplay_ability_system::abilities::AbilityDefinition;
use gameplay_ability_system::abilities::AbilityRegistry;
use gameplay_ability_system::abilities::AbilitySpec;
use gameplay_ability_system::abilities::AbilityState;
use gameplay_ability_system::abilities::ActiveAbilityInstance;
use gameplay_ability_system::abilities::InstancingPolicy;
use gameplay_ability_system::abilities::check_ability_activation_requirements;
use gameplay_ability_system::tags::GameplayTag;
use gameplay_ability_system::tags::GameplayTagCountContainer;

#[test]
fn test_ability_spec_creation() {
    let spec = AbilitySpec::new("test_ability".to_string(), 1);
    assert_eq!(spec.definition_id, "test_ability");
    assert_eq!(spec.level, 1);
    assert_eq!(spec.input_id, None);
    assert!(!spec.is_active);
}

#[test]
fn test_ability_spec_with_input() {
    let spec = AbilitySpec::new("test_ability".to_string(), 1).with_input_id(42);
    assert_eq!(spec.input_id, Some(42));
}

#[test]
fn test_cooldown() {
    let mut cooldown = AbilityCooldown::new(5000);
    assert_eq!(cooldown.remaining, 5000);
    assert!(!cooldown.is_expired());
    assert_eq!(cooldown.progress(), 0);

    cooldown.tick(2500);
    assert_eq!(cooldown.remaining, 2500);
    assert!(!cooldown.is_expired());
    assert_eq!(cooldown.progress(), 500);

    cooldown.tick(3000);
    assert_eq!(cooldown.remaining, -500);
    assert!(cooldown.is_expired());
    assert_eq!(cooldown.progress(), 1000);
}

#[test]
fn test_ability_state_default() {
    let state = AbilityState::default();
    assert_eq!(state, AbilityState::Ready);
}

#[test]
fn test_ability_definition_builder() {
    let ability = AbilityDefinition::new("test_ability")
        .with_instancing_policy(InstancingPolicy::NonInstanced)
        .with_cost_effect("mana_cost")
        .with_cooldown_effect("cooldown_5s")
        .add_activation_required_tag(GameplayTag::new("State.Alive"))
        .add_activation_blocked_tag(GameplayTag::new("State.Stunned"));

    assert_eq!(ability.id, "test_ability");
    assert_eq!(ability.activation_required_tags.len(), 1);
    assert_eq!(ability.activation_blocked_tags.len(), 1);
}

#[test]
fn definition_test_registry() {
    let mut registry = AbilityRegistry::new();
    let ability = AbilityDefinition::new("test");
    registry.register(ability);

    assert!(registry.get("test").is_some());
    assert!(registry.get("nonexistent").is_none());
}

#[test]
fn test_check_activation_requirements() {
    let ability = AbilityDefinition::new("test")
        .add_activation_required_tag(GameplayTag::new("State.Alive"))
        .add_activation_blocked_tag(GameplayTag::new("State.Stunned"));

    assert_eq!(ability.id, "test");
    assert_eq!(ability.activation_required_tags.len(), 1);
    assert_eq!(ability.activation_blocked_tags.len(), 1);

    let mut tags = GameplayTagCountContainer::new();
    assert!(!check_ability_activation_requirements(&ability, &tags));

    tags.add_tag(&GameplayTag::new("State.Alive"));
    assert!(check_ability_activation_requirements(&ability, &tags));

    tags.add_tag(&GameplayTag::new("State.Stunned"));
    assert!(!check_ability_activation_requirements(&ability, &tags));
}

#[test]
fn test_active_ability_instance() {
    let instance = ActiveAbilityInstance::new(9, 1500);
    assert_eq!(instance.spec_entity, 9);
    assert_eq!(instance.activation_time, 1500);
    assert!(!instance.is_committed);
}

#[test]
fn test_cooldown_progress_without_duration() {
    let cooldown = AbilityCooldown::new(0);
    assert_eq!(cooldown.progress(), 1000);
}
