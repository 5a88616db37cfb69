//! A gameplay ability framework: entities own numeric attributes, gameplay
//! effects modify those attributes over time or instantly, abilities are
//! activated subject to cost, cooldown and tag gating, and cues provide
//! feedback bookkeeping.
//!
//! Attribute values, modifier magnitudes and timers are fixed-point numbers:
//! `i64` counts of thousandths (`1.5` is stored as `1500`). Entities are plain
//! `u64` identifiers handed in by the caller, and gameplay tags are plain
//! names whose hierarchical resolution is the caller's concern: the library
//! keeps a tag-count multiset per owner and gates on it.

pub mod abilities;
pub mod cues;
pub mod handles;
pub mod plugin;
pub mod system_sets;
pub mod aggregation;
pub mod attributes;
pub mod effect_components;
pub mod events;
pub mod effect_definition;
pub mod math;
pub mod tag_requirements;
pub mod system;
pub mod tags;
