//! End-to-end tests of the simulation core: effect application, stacking,
//! periodic execution, expiry, aggregation, ability gating and commit.
//! Values are fixed-point thousandths: 100.0 is written 100000.

use gameplay_ability_system::abilities::AbilityDefinition;
use gameplay_ability_system::abilities::AbilityState;
use gameplay_ability_system::effect_components::ModifierOperation;
use gameplay_ability_system::effect_definition::DurationPolicy;
use gameplay_ability_system::effect_definition::GameplayEffectDefinition;
use gameplay_ability_system::effect_definition::MagnitudeCalculation;
use gameplay_ability_system::effect_definition::ModifierInfo;
use gameplay_ability_system::effect_definition::StackingPolicy;
use gameplay_ability_system::events::ApplyGameplayEffectEvent;
use gameplay_ability_system::events::BatchableEvent;
use gameplay_ability_system::system::AbilityError;
use gameplay_ability_system::system::EffectError;
use gameplay_ability_system::system::GameplayAbilitySystem;
use gameplay_ability_system::tag_requirements::TagRequirements;
use gameplay_ability_system::tags::GameplayTag;

const HERO: u64 = 1;

fn world_with_health() -> GameplayAbilitySystem {
    let mut sys = GameplayAbilitySystem::new();
    sys.attributes.create(HERO, "Health", 100000, None);
    sys
}

fn add_current(amount: i64) -> ModifierInfo {
    ModifierInfo::new("Health", ModifierOperation::AddCurrent, MagnitudeCalculation::scalar(amount))
}

#[test]
fn test_operation_semantics_end_to_end() {
    // base=100, AddCurrent(+20), MultiplyAdditive(+0.5),
    // MultiplyMultiplicative(+0.1) => (100+20) * 1.5 * 1.1 = 198.
    let mut sys = world_with_health();
    sys.register_effect(
        GameplayEffectDefinition::new("buffs")
            .with_duration_policy(DurationPolicy::Infinite)
            .add_modifier(add_current(20000))
            .add_modifier(ModifierInfo::new(
                "Health",
                ModifierOperation::MultiplyAdditive,
                MagnitudeCalculation::scalar(500),
            ))
            .add_modifier(ModifierInfo::new(
                "Health",
                ModifierOperation::MultiplyMultiplicative,
                MagnitudeCalculation::scalar(100),
            )),
    );
    sys.apply_effect("buffs", HERO, None, 1).unwrap();
    sys.tick(0);
    assert_eq!(sys.get_attribute_current(HERO, "Health"), Some(198000));
}

#[test]
fn test_override_wins_end_to_end() {
    // base=50, AddCurrent(+10), Override(75) => 75, not 85.
    let mut sys = GameplayAbilitySystem::new();
    sys.attributes.create(HERO, "Health", 50000, None);
    sys.register_effect(
        GameplayEffectDefinition::new("fix")
            .with_duration_policy(DurationPolicy::Infinite)
            .add_modifier(add_current(10000))
            .add_modifier(ModifierInfo::new(
                "Health",
                ModifierOperation::Override,
                MagnitudeCalculation::scalar(75000),
            )),
    );
    sys.apply_effect("fix", HERO, None, 1).unwrap();
    sys.tick(0);
    assert_eq!(sys.get_attribute_current(HERO, "Health"), Some(75000));
}

#[test]
fn test_duration_expiry_removes_modifiers() {
    let mut sys = world_with_health();
    sys.register_effect(
        GameplayEffectDefinition::new("blessing").with_duration(2000).add_modifier(add_current(
            30000,
        )),
    );
    sys.apply_effect("blessing", HERO, None, 1).unwrap();

    sys.tick(1000);
    assert_eq!(sys.get_attribute_current(HERO, "Health"), Some(130000));
    assert_eq!(sys.list_active_effects(HERO).len(), 1);

    sys.tick(1000);
    assert_eq!(sys.get_attribute_current(HERO, "Health"), Some(100000));
    assert_eq!(sys.list_active_effects(HERO).len(), 0);
    assert_eq!(sys.modifiers.len(), 0);
}

#[test]
fn test_periodic_catch_up_executes_twice() {
    // period=2.0 ticked once with dt=5.0 executes exactly twice.
    let mut sys = world_with_health();
    sys.register_effect(
        GameplayEffectDefinition::new("poison")
            .with_duration_policy(DurationPolicy::Infinite)
            .with_period(2000)
            .add_modifier(ModifierInfo::new(
                "Health",
                ModifierOperation::AddBase,
                MagnitudeCalculation::scalar(-5000),
            )),
    );
    sys.apply_effect("poison", HERO, None, 1).unwrap();
    // The AddBase template folds once at creation: base is 95.
    sys.tick(0);
    assert_eq!(sys.get_attribute_current(HERO, "Health"), Some(95000));

    // One tick spanning 2.5 periods: exactly two more executions.
    sys.tick(5000);
    assert_eq!(sys.get_attribute_current(HERO, "Health"), Some(85000));
    let timer = sys.active_effects[0].periodic.unwrap();
    assert_eq!(timer.time_until_next, 1000);
}

#[test]
fn test_stacking_refresh_duration() {
    let mut sys = world_with_health();
    sys.register_effect(
        GameplayEffectDefinition::new("regen")
            .with_duration(5000)
            .with_stacking_policy(StackingPolicy::RefreshDuration)
            .add_modifier(add_current(5000)),
    );
    let first = sys.apply_effect("regen", HERO, None, 1).unwrap();
    sys.tick(4000);
    assert_eq!(sys.active_effects[0].duration.unwrap().remaining, 1000);

    let second = sys.apply_effect("regen", HERO, None, 1).unwrap();
    assert_eq!(first, second);
    assert_eq!(sys.active_effects[0].duration.unwrap().remaining, 5000);
    assert_eq!(sys.list_active_effects(HERO).len(), 1);
}

#[test]
fn test_stacking_stack_count_caps() {
    let mut sys = world_with_health();
    sys.register_effect(
        GameplayEffectDefinition::new("venom")
            .with_duration_policy(DurationPolicy::Infinite)
            .with_stacking_policy(StackingPolicy::StackCount { max_stacks: 3 })
            .add_modifier(add_current(-1000)),
    );
    for _ in 0..3 {
        sys.apply_effect("venom", HERO, None, 1).unwrap();
    }
    assert_eq!(sys.active_effects[0].effect.stack_count, 3);

    // A fourth application is capped, not rejected.
    assert!(sys.apply_effect("venom", HERO, None, 1).is_ok());
    assert_eq!(sys.active_effects[0].effect.stack_count, 3);
    assert_eq!(sys.list_active_effects(HERO).len(), 1);
}

#[test]
fn test_ability_gating_end_to_end() {
    let mut sys = world_with_health();
    sys.register_effect(
        GameplayEffectDefinition::new("stun")
            .with_duration(2000)
            .grant_tag(GameplayTag::new("State.Stunned")),
    );
    sys.register_ability(
        AbilityDefinition::new("fireball")
            .add_activation_blocked_tag(GameplayTag::new("State.Stunned")),
    );
    let fireball = sys.grant_ability(HERO, "fireball", 1);

    sys.apply_effect("stun", HERO, None, 1).unwrap();
    assert_eq!(sys.try_activate_ability(fireball), Err(AbilityError::TagBlocked));

    // The stun expires and its tag is revoked.
    sys.tick(2000);
    assert_eq!(sys.try_activate_ability(fireball), Ok(()));
    assert_eq!(sys.get_ability_state(fireball), Some(AbilityState::Active));
}

#[test]
fn test_commit_is_idempotent_per_activation() {
    let mut sys = GameplayAbilitySystem::new();
    sys.attributes.create(HERO, "Mana", 100000, None);
    sys.register_effect(
        GameplayEffectDefinition::new("mana_cost").add_modifier(ModifierInfo::new(
            "Mana",
            ModifierOperation::AddBase,
            MagnitudeCalculation::scalar(-10000),
        )),
    );
    sys.register_effect(GameplayEffectDefinition::new("cooling").with_duration(5000));
    sys.register_ability(
        AbilityDefinition::new("bolt").with_cost_effect("mana_cost").with_cooldown_effect(
            "cooling",
        ),
    );
    let bolt = sys.grant_ability(HERO, "bolt", 1);
    sys.try_activate_ability(bolt).unwrap();

    assert!(sys.commit_ability(bolt));
    sys.tick(0);
    assert_eq!(sys.get_attribute_current(HERO, "Mana"), Some(90000));

    // Committing the same activation again deducts nothing.
    assert!(!sys.commit_ability(bolt));
    sys.tick(0);
    assert_eq!(sys.get_attribute_current(HERO, "Mana"), Some(90000));

    // After the ability ends, the cooldown marker gates reactivation.
    assert!(sys.end_ability(bolt));
    assert_eq!(sys.try_activate_ability(bolt), Err(AbilityError::OnCooldown));
    sys.tick(0);
    assert_eq!(sys.get_ability_state(bolt), Some(AbilityState::Cooldown));

    // Once the cooldown runs out the ability is ready again.
    sys.tick(5000);
    assert_eq!(sys.get_ability_state(bolt), Some(AbilityState::Ready));
    assert_eq!(sys.try_activate_ability(bolt), Ok(()));
}

#[test]
fn test_instant_add_base_folds_permanently() {
    let mut sys = world_with_health();
    sys.register_effect(
        GameplayEffectDefinition::new("wound").add_modifier(ModifierInfo::new(
            "Health",
            ModifierOperation::AddBase,
            MagnitudeCalculation::scalar(-20000),
        )),
    );
    sys.apply_effect("wound", HERO, None, 1).unwrap();

    // The instant instance takes part in exactly one aggregation pass.
    sys.tick(0);
    assert_eq!(sys.get_attribute_current(HERO, "Health"), Some(80000));
    assert_eq!(sys.list_active_effects(HERO).len(), 1);

    // The next tick removes it; the base change stays.
    sys.tick(0);
    assert_eq!(sys.list_active_effects(HERO).len(), 0);
    assert_eq!(sys.get_attribute_current(HERO, "Health"), Some(80000));
}

#[test]
fn test_apply_effect_errors() {
    let mut sys = world_with_health();
    assert_eq!(
        sys.apply_effect("unknown", HERO, None, 1),
        Err(EffectError::DefinitionNotFound)
    );

    sys.register_effect(
        GameplayEffectDefinition::new("picky").with_tag_requirements(
            TagRequirements::new().require_tag(GameplayTag::new("State.Alive")),
        ),
    );
    assert_eq!(
        sys.apply_effect("picky", HERO, None, 1),
        Err(EffectError::TagRequirementsFailed)
    );
}

#[test]
fn test_activation_errors() {
    let mut sys = world_with_health();
    assert_eq!(sys.try_activate_ability(99), Err(AbilityError::DefinitionNotFound));

    sys.register_ability(AbilityDefinition::new("dash"));
    let dash = sys.grant_ability(HERO, "dash", 1);
    assert_eq!(sys.try_activate_ability(dash), Ok(()));
    assert_eq!(sys.try_activate_ability(dash), Err(AbilityError::AlreadyActive));
}

#[test]
fn test_cancel_on_tag_added() {
    let mut sys = world_with_health();
    sys.register_effect(
        GameplayEffectDefinition::new("stun")
            .with_duration_policy(DurationPolicy::Infinite)
            .grant_tag(GameplayTag::new("State.Stunned")),
    );
    sys.register_ability(
        AbilityDefinition::new("channel").add_cancel_on_tag_added(GameplayTag::new(
            "State.Stunned",
        )),
    );
    let channel = sys.grant_ability(HERO, "channel", 1);
    sys.try_activate_ability(channel).unwrap();
    assert_eq!(sys.get_ability_state(channel), Some(AbilityState::Active));

    sys.apply_effect("stun", HERO, None, 1).unwrap();
    sys.tick(0);
    assert_eq!(sys.get_ability_state(channel), Some(AbilityState::Ready));
    assert!(!sys.abilities[0].spec.is_active);
}

#[test]
fn test_change_events_at_most_once_per_tick() {
    let mut sys = world_with_health();
    sys.attributes.create(2, "Health", 60000, None);
    sys.register_effect(
        GameplayEffectDefinition::new("buffs")
            .with_duration_policy(DurationPolicy::Infinite)
            .add_modifier(add_current(30000)),
    );
    sys.apply_effect("buffs", HERO, None, 1).unwrap();

    let events = sys.tick(0);
    assert_eq!(events.len(), 1);
    assert_eq!(events[0].owner, HERO);
    assert_eq!(events[0].attribute_name, "Health");
    assert_eq!(events[0].old_value, 100000);
    assert_eq!(events[0].new_value, 130000);

    // A tick without modifier changes reports nothing.
    let events = sys.tick(0);
    assert_eq!(events.len(), 0);
}

#[test]
fn test_apply_effect_event() {
    let event = ApplyGameplayEffectEvent {
        effect_id: "test_effect".to_string(),
        target: HERO,
        instigator: None,
        level: 1,
    };
    assert_eq!(event.effect_id, "test_effect");
    assert_eq!(event.target, HERO);
    assert_eq!(event.level, 1);
}

#[test]
fn test_batchable_event_trait() {
    let event = ApplyGameplayEffectEvent {
        effect_id: "test".to_string(),
        target: 0,
        instigator: None,
        level: 1,
    };
    assert!(event.can_batch());
}

#[test]
fn test_has_attribute() {
    let sys = world_with_health();
    assert!(sys.attributes.has_attribute(HERO, "Health"));
    assert!(!sys.attributes.has_attribute(HERO, "Mana"));
}

#[test]
fn test_count_active_effects() {
    let mut sys = world_with_health();
    sys.attributes.create(2, "Health", 100000, None);
    sys.register_effect(
        GameplayEffectDefinition::new("spark")
            .with_duration_policy(DurationPolicy::Infinite)
            .add_modifier(add_current(1000)),
    );
    sys.apply_effect("spark", HERO, None, 1).unwrap();
    sys.apply_effect("spark", HERO, None, 1).unwrap();
    sys.apply_effect("spark", 2, None, 1).unwrap();

    assert_eq!(sys.count_active_effects(HERO), 2);
    assert_eq!(sys.count_active_effects(2), 1);
    assert!(sys.has_active_effects(HERO));
    assert!(!sys.has_active_effects(3));
}

#[test]
fn test_attribute_based_magnitude_reads_instigator() {
    let mut sys = world_with_health();
    sys.attributes.create(2, "Strength", 5000, None);
    sys.register_effect(
        GameplayEffectDefinition::new("smite")
            .with_duration_policy(DurationPolicy::Infinite)
            .add_modifier(ModifierInfo::new(
                "Health",
                ModifierOperation::AddCurrent,
                MagnitudeCalculation::from_attribute("Strength", -2000),
            )),
    );
    sys.apply_effect("smite", HERO, Some(2), 1).unwrap();
    sys.tick(0);
    // (5 + 0) * -2 + 0 = -10 on top of base 100.
    assert_eq!(sys.get_attribute_current(HERO, "Health"), Some(90000));
}

#[test]
fn test_owned_ability_queries() {
    let mut sys = world_with_health();
    sys.register_ability(AbilityDefinition::new("dash"));
    sys.register_ability(AbilityDefinition::new("bolt"));
    let dash = sys.grant_ability(HERO, "dash", 1);
    let bolt = sys.grant_ability(HERO, "bolt", 2);
    sys.grant_ability(2, "dash", 1);

    assert_eq!(sys.get_owned_abilities(HERO), vec![dash, bolt]);
    assert_eq!(sys.count_abilities(HERO), 2);
    assert!(sys.has_abilities(2));
    assert!(!sys.has_abilities(3));
    assert_eq!(sys.find_ability_by_definition(HERO, "bolt"), Some(bolt));
    assert_eq!(sys.find_ability_by_definition(2, "bolt"), None);
}
