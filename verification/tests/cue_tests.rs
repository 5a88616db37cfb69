//! Tests for gameplay cue bookkeeping: registration, parameters and
//! batching.

use gameplay_ability_system::cues::GameplayCueEvent;
use gameplay_ability_system::cues::GameplayCueManager;
use gameplay_ability_system::cues::GameplayCueParameters;
use gameplay_ability_system::cues::TriggerGameplayCueEvent;
use gameplay_ability_system::tags::GameplayTag;

#[test]
fn test_cue_manager_registration() {
    let mut manager = GameplayCueManager::new();
    let tag = GameplayTag::new("GameplayCue.Test");

    manager.register_static_cue(tag.clone());
    assert!(manager.has_cue(&tag));
    assert_eq!(manager.is_static_cue(&tag), Some(true));
}

#[test]
fn test_cue_parameters_builder() {
    let params = GameplayCueParameters::new()
        .with_magnitude(100000, 500)
        .with_location((1000, 2000, 3000));

    assert_eq!(params.raw_magnitude, 100000);
    assert_eq!(params.normalized_magnitude, 500);
    assert_eq!(params.location, (1000, 2000, 3000));
}

#[test]
fn test_batching() {
    let mut manager = GameplayCueManager::new();
    let tag = GameplayTag::new("GameplayCue.Test");

    manager.start_batching();
    assert!(manager.batching_active);

    manager.execute_cue(tag.clone(), GameplayCueEvent::Executed, GameplayCueParameters::new());

    assert_eq!(manager.pending_cues.len(), 1);

    let drained = manager.end_batching();
    assert!(!manager.batching_active);
    assert_eq!(manager.pending_cues.len(), 0);
    assert_eq!(drained.len(), 1);
}

#[test]
fn test_trigger_cue_event_creation() {
    let event = TriggerGameplayCueEvent {
        cue_tag: GameplayTag::new("GameplayCue.Test"),
        event_type: GameplayCueEvent::OnActive,
        parameters: GameplayCueParameters::new(),
    };
    assert_eq!(event.cue_tag.name, "GameplayCue.Test");
    assert_eq!(event.event_type, GameplayCueEvent::OnActive);
}

#[test]
fn test_actor_cue_registration_replaces() {
    let mut manager = GameplayCueManager::new();
    let tag = GameplayTag::new("GameplayCue.Fire");
    manager.register_static_cue(tag.clone());
    manager.register_actor_cue(tag.clone());
    assert_eq!(manager.is_static_cue(&tag), Some(false));
    assert_eq!(manager.loaded_cues.len(), 1);
}

#[test]
fn test_active_cue_actor_tracking() {
    let mut manager = GameplayCueManager::new();
    let tag = GameplayTag::new("GameplayCue.Aura");
    manager.add_active_cue(tag.clone(), 10);
    manager.add_active_cue(tag.clone(), 11);
    assert_eq!(manager.active_cues.len(), 1);
    assert_eq!(manager.active_cues[0].actors.len(), 2);

    manager.remove_active_cue(&tag, 10);
    assert_eq!(manager.active_cues[0].actors, vec![11]);
    manager.remove_active_cue(&tag, 11);
    assert_eq!(manager.active_cues.len(), 0);
}

#[test]
fn test_cue_execution_without_batching_leaves_no_queue() {
    let mut manager = GameplayCueManager::new();
    manager.execute_cue(
        GameplayTag::new("GameplayCue.Test"),
        GameplayCueEvent::Executed,
        GameplayCueParameters::new(),
    );
    assert_eq!(manager.pending_cues.len(), 0);
}
