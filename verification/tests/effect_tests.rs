//! Tests for effect components, definitions and the effect registry.
//! Values are fixed-point thousandths: 5.0 is written 5000.

use gameplay_ability_system::effect_components::AttributeModifier;
use gameplay_ability_system::effect_components::EffectDuration;
use gameplay_ability_system::effect_components::ModifierOperation;
use gameplay_ability_system::effect_components::PeriodicEffect;
use gameplay_ability_system::effect_definition::DurationPolicy;
use gameplay_ability_system::effect_definition::GameplayEffectDefinition;
use gameplay_ability_system::effect_definition::GameplayEffectRegistry;
use gameplay_ability_system::effect_definition::MagnitudeCalculation;
use gameplay_ability_system::effect_definition::ModifierInfo;
use gameplay_ability_system::aggregation::aggregate_modifiers;

#[test]
fn test_effect_duration() {
    let mut duration = EffectDuration::new(5000);
    assert_eq!(duration.remaining, 5000);
    assert!(!duration.is_expired());

    duration.tick(3000);
    assert_eq!(duration.remaining, 2000);
    assert!(!duration.is_expired());

    duration.tick(3000);
    assert_eq!(duration.remaining, -1000);
    assert!(duration.is_expired());
}

#[test]
fn test_periodic_effect() {
    let mut periodic = PeriodicEffect::new(1000);
    assert_eq!(periodic.time_until_next, 1000);
    assert!(!periodic.should_execute());

    assert!(!periodic.tick(500));
    assert_eq!(periodic.time_until_next, 500);

    assert!(periodic.tick(600));
    assert_eq!(periodic.time_until_next, 900);
}

#[test]
fn test_periodic_catch_up_count() {
    // A tick spanning more than one period executes once per crossing.
    let mut periodic = PeriodicEffect::new(2000);
    let executions = periodic.advance(5000);
    assert_eq!(executions, 2);
    assert_eq!(periodic.time_until_next, 1000);

    // A short tick executes nothing.
    let mut periodic = PeriodicEffect::new(2000);
    assert_eq!(periodic.advance(1500), 0);
    assert_eq!(periodic.time_until_next, 500);

    // tick catches up the same way: period 2.0 ticked with dt 5.0 crosses
    // twice and leaves the timer at 1.0.
    let mut periodic = PeriodicEffect::new(2000);
    assert!(periodic.tick(5000));
    assert_eq!(periodic.time_until_next, 1000);
}

#[test]
fn test_modifier_operation_priority() {
    assert!(ModifierOperation::AddBase.priority() < ModifierOperation::AddCurrent.priority());
    assert!(
        ModifierOperation::AddCurrent.priority() < ModifierOperation::MultiplyAdditive.priority()
    );
    assert!(
        ModifierOperation::MultiplyAdditive.priority()
            < ModifierOperation::MultiplyMultiplicative.priority()
    );
    assert!(
        ModifierOperation::MultiplyMultiplicative.priority()
            < ModifierOperation::Override.priority()
    );
}

#[test]
fn test_magnitude_calculation_scalar() {
    let mag = MagnitudeCalculation::scalar(10000);
    assert_eq!(mag.evaluate(1, None), 10000);
}

#[test]
fn test_magnitude_calculation_attribute_based() {
    let mag = MagnitudeCalculation::from_attribute("Strength", 2000);
    assert_eq!(mag.evaluate(1, Some(5000)), 10000);
}

#[test]
fn test_effect_definition_builder() {
    let effect = GameplayEffectDefinition::new("test_effect")
        .with_duration(5000)
        .with_period(1000)
        .add_modifier(ModifierInfo::new(
            "Health",
            ModifierOperation::AddCurrent,
            MagnitudeCalculation::scalar(10000),
        ));

    assert_eq!(effect.id, "test_effect");
    assert_eq!(effect.duration_policy, DurationPolicy::HasDuration);
    assert_eq!(effect.duration_magnitude, 5000);
    assert_eq!(effect.period, 1000);
    assert_eq!(effect.modifiers.len(), 1);
}

#[test]
fn test_registry() {
    let mut registry = GameplayEffectRegistry::new();
    let effect = GameplayEffectDefinition::new("test");
    registry.register(effect);

    assert!(registry.get("test").is_some());
    assert!(registry.get("nonexistent").is_none());
}

#[test]
fn test_registry_last_write_wins() {
    let mut registry = GameplayEffectRegistry::new();
    registry.register(GameplayEffectDefinition::new("potion").with_duration(1000));
    registry.register(GameplayEffectDefinition::new("potion").with_duration(9000));

    let def = registry.get("potion").unwrap();
    assert_eq!(def.duration_magnitude, 9000);
    assert_eq!(registry.definitions.len(), 1);
}

#[test]
fn test_operation_semantics() {
    // base=100, AddCurrent(+20), MultiplyAdditive(+0.5),
    // MultiplyMultiplicative(+0.1): (100+20) * 1.5 * 1.1 = 198.
    let mods = vec![
        modifier(ModifierOperation::AddCurrent, 20000),
        modifier(ModifierOperation::MultiplyAdditive, 500),
        modifier(ModifierOperation::MultiplyMultiplicative, 100),
    ];
    assert_eq!(aggregate_modifiers(100000, &mods), 198000);
}

#[test]
fn test_override_precedence() {
    // base=50, AddCurrent(+10), Override(75): the override replaces the
    // accumulated value, so the result is 75, not 85.
    let mods = vec![
        modifier(ModifierOperation::AddCurrent, 10000),
        modifier(ModifierOperation::Override, 75000),
    ];
    assert_eq!(aggregate_modifiers(50000, &mods), 75000);
}

#[test]
fn test_aggregation_order_independent() {
    // The same logical set in different submission orders aggregates the
    // same when priorities differ.
    let a = vec![
        modifier(ModifierOperation::MultiplyAdditive, 500),
        modifier(ModifierOperation::AddCurrent, 20000),
        modifier(ModifierOperation::MultiplyMultiplicative, 100),
    ];
    let b = vec![
        modifier(ModifierOperation::AddCurrent, 20000),
        modifier(ModifierOperation::MultiplyAdditive, 500),
        modifier(ModifierOperation::MultiplyMultiplicative, 100),
    ];
    assert_eq!(aggregate_modifiers(100000, &a), aggregate_modifiers(100000, &b));
}

#[test]
fn test_aggregation_stable_ties() {
    // Equal priorities keep creation order: the later override wins.
    let mods = vec![
        modifier(ModifierOperation::Override, 70000),
        modifier(ModifierOperation::Override, 80000),
    ];
    assert_eq!(aggregate_modifiers(10000, &mods), 80000);
}

#[test]
fn test_add_base_not_aggregated() {
    // AddBase modifiers fold into the base at instance creation; the
    // aggregator itself ignores them.
    let mods = vec![modifier(ModifierOperation::AddBase, 40000)];
    assert_eq!(aggregate_modifiers(100000, &mods), 100000);
}

fn modifier(operation: ModifierOperation, magnitude: i64) -> AttributeModifier {
    AttributeModifier {
        target_entity: 1,
        target_attribute: "Health".to_string(),
        operation,
        magnitude,
    }
}
