//! Tests for gameplay tags, tag-count containers and tag requirements.

use gameplay_ability_system::tag_requirements::TagRequirements;
use gameplay_ability_system::tags::GameplayTag;
use gameplay_ability_system::tags::GameplayTagCountContainer;

#[test]
fn test_empty_requirements() {
    let requirements = TagRequirements::new();
    let tags = GameplayTagCountContainer::new();

    assert!(requirements.is_empty());
    assert!(requirements.are_requirements_met(&tags));
}

#[test]
fn test_require_tag() {
    let requirements = TagRequirements::new().require_tag(GameplayTag::new("State.Alive"));

    let mut tags = GameplayTagCountContainer::new();

    // Should fail without the tag
    assert!(!requirements.are_requirements_met(&tags));

    // Should succeed with the tag
    tags.add_tag(&GameplayTag::new("State.Alive"));
    assert!(requirements.are_requirements_met(&tags));
}

#[test]
fn test_ignore_tag() {
    let requirements = TagRequirements::new().ignore_tag(GameplayTag::new("State.Dead"));

    let mut tags = GameplayTagCountContainer::new();

    // Should succeed when the ignored tag is not present
    assert!(requirements.are_requirements_met(&tags));

    // Should fail once the ignored tag is granted
    tags.add_tag(&GameplayTag::new("State.Dead"));
    assert!(!requirements.are_requirements_met(&tags));
}

#[test]
fn test_builder_pattern() {
    let requirements = TagRequirements::new()
        .require_tag(GameplayTag::new("State.Alive"))
        .ignore_tag(GameplayTag::new("State.Stunned"))
        .require_all_tag(GameplayTag::new("Ability.CanCast"));

    assert!(!requirements.is_empty());
    assert_eq!(requirements.require_tags.len(), 1);
    assert_eq!(requirements.ignore_tags.len(), 1);
    assert_eq!(requirements.require_all_tags.len(), 1);
}

#[test]
fn test_tag_counts_are_a_multiset() {
    let mut tags = GameplayTagCountContainer::new();
    let stunned = GameplayTag::new("State.Stunned");

    assert_eq!(tags.tag_count(&stunned), 0);
    tags.add_tag(&stunned);
    tags.add_tag(&stunned);
    assert_eq!(tags.tag_count(&stunned), 2);
    assert!(tags.has_matching_gameplay_tag(&stunned));

    // Revoking one grant leaves the other standing.
    assert!(tags.remove_tag(&stunned));
    assert_eq!(tags.tag_count(&stunned), 1);
    assert!(tags.has_matching_gameplay_tag(&stunned));
    assert!(tags.remove_tag(&stunned));
    assert!(!tags.has_matching_gameplay_tag(&stunned));
    assert!(!tags.remove_tag(&stunned));
}

#[test]
fn test_tag_matching_is_exact() {
    let parent = GameplayTag::new("State");
    let child = GameplayTag::new("State.Stunned");
    assert!(!parent.matches_tag_exact(&child));
    assert!(child.matches_tag_exact(&GameplayTag::new("State.Stunned")));
}

#[test]
fn test_require_any_tags() {
    let requirements = TagRequirements::new()
        .require_any_tag(GameplayTag::new("Class.Mage"))
        .require_any_tag(GameplayTag::new("Class.Druid"));

    let mut tags = GameplayTagCountContainer::new();
    assert!(!requirements.are_requirements_met(&tags));
    tags.add_tag(&GameplayTag::new("Class.Druid"));
    assert!(requirements.are_requirements_met(&tags));
}
