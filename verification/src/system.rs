//! The simulation core: a single world owning the registries, the attribute
//! store, per-owner tag containers, active effect instances with their
//! modifiers, and granted abilities.
//!
//! All mutation happens through the request surface (apply an effect,
//! activate / commit / end an ability) and through `tick`, which runs the
//! fixed pass order once per simulation step: advance duration timers, fire
//! periodic executions, remove expired and spent instant instances,
//! aggregate modifiers into current values, clamp, update ability cooldowns
//! and states, and report which attribute values changed.

use vstd::prelude::*;

use crate::abilities::AbilityCooldown;
use crate::abilities::AbilityDefinition;
use crate::abilities::AbilityOwner;
use crate::abilities::AbilityRegistry;
use crate::abilities::AbilitySpec;
use crate::abilities::AbilityState;
use crate::abilities::ActiveAbilityInstance;
use crate::abilities::InstancingPolicy;
use crate::attributes::AttributeStore;
use crate::effect_components::ActiveGameplayEffect;
use crate::effect_components::AttributeModifier;
use crate::effect_components::EffectDuration;
use crate::effect_components::EffectGrantedTags;
use crate::effect_components::EffectInstigator;
use crate::effect_components::EffectTarget;
use crate::effect_components::ModifierSource;
use crate::effect_components::PeriodicEffect;
use crate::events::AttributeChangedEvent;
use crate::effect_definition::GameplayEffectRegistry;
use crate::effect_definition::MagnitudeCalculation;
use crate::effect_definition::ModifierInfo;
use crate::attributes::AttributeData;
use crate::attributes::AttributeEntry;
use crate::effect_definition::DurationPolicy;
use crate::effect_definition::GameplayEffectDefinition;
use crate::effect_definition::StackingPolicy;
use crate::effect_definition::spec_calc_matches;
use crate::effect_definition::spec_evaluate_magnitude;
use crate::effect_definition::spec_info_matches;
use crate::effect_components::ModifierOperation;
use crate::math::spec_sat_add;
use crate::tag_requirements::TagRequirements;
use crate::tags::GameplayTag;
use crate::tags::GameplayTagCountContainer;
use crate::tags::tag_occurrences;

verus! {

/// Why activating an ability was refused.
#[derive(Debug, Clone, Copy, PartialEq, Eq, Structural)]
pub enum AbilityError {
    /// The ability grant or its definition is not registered.
    DefinitionNotFound,
    /// The ability is already active.
    AlreadyActive,
    /// The owner's tags fail the activation requirements.
    TagBlocked,
    /// An unexpired cooldown marker exists for this ability.
    OnCooldown,
}

/// Why applying an effect was refused.
#[derive(Debug, Clone, Copy, PartialEq, Eq, Structural)]
pub enum EffectError {
    /// The effect definition id is not registered.
    DefinitionNotFound,
    /// The target's tags do not meet the definition's application
    /// requirements.
    TagRequirementsFailed,
}

/// The current value of the source attribute a calculation reads from the
/// instigator, if there is an instigator and the attribute exists.
pub open spec fn spec_mod_source_value(
    attrs: AttributeStore,
    calc: MagnitudeCalculation,
    instigator: Option<u64>,
) -> Option<int> {
    match calc {
        MagnitudeCalculation::AttributeBased {
            attribute_name,
            coefficient: _,
            pre_multiply_additive: _,
            post_multiply_additive: _,
        } => match instigator {
            Some(inst) => match attrs.spec_lookup(inst, attribute_name@) {
                Some(d) => Some(d.current_value as int),
                None => None,
            },
            None => None,
        },
        _ => None,
    }
}

/// The magnitude a modifier template evaluates to against a store.
pub open spec fn spec_modifier_magnitude(
    attrs: AttributeStore,
    info: ModifierInfo,
    instigator: Option<u64>,
) -> int {
    spec_evaluate_magnitude(info.magnitude, spec_mod_source_value(attrs, info.magnitude, instigator))
}

/// The magnitudes of all of a definition's modifiers, evaluated in order.
pub open spec fn spec_eval_mags(
    attrs: AttributeStore,
    infos: Seq<ModifierInfo>,
    instigator: Option<u64>,
) -> Seq<int> {
    Seq::new(infos.len(), |k: int| spec_modifier_magnitude(attrs, infos[k], instigator))
}

/// The AddBase templates of a modifier list, in order.
pub open spec fn spec_add_base_infos(infos: Seq<ModifierInfo>) -> Seq<ModifierInfo>
    decreases infos.len(),
{
    if infos.len() == 0 {
        Seq::empty()
    } else {
        let rest = spec_add_base_infos(infos.drop_last());
        if infos.last().operation is AddBase {
            rest.push(infos.last())
        } else {
            rest
        }
    }
}

/// The non-AddBase templates of a modifier list, in order: these become
/// standing modifiers.
pub open spec fn spec_standing_infos(infos: Seq<ModifierInfo>) -> Seq<ModifierInfo>
    decreases infos.len(),
{
    if infos.len() == 0 {
        Seq::empty()
    } else {
        let rest = spec_standing_infos(infos.drop_last());
        if infos.last().operation is AddBase {
            rest
        } else {
            rest.push(infos.last())
        }
    }
}

/// The magnitudes of the standing templates, evaluated in order.
pub open spec fn spec_standing_mags(
    attrs: AttributeStore,
    infos: Seq<ModifierInfo>,
    instigator: Option<u64>,
) -> Seq<int>
    decreases infos.len(),
{
    if infos.len() == 0 {
        Seq::empty()
    } else {
        let rest = spec_standing_mags(attrs, infos.drop_last(), instigator);
        if infos.last().operation is AddBase {
            rest
        } else {
            rest.push(spec_modifier_magnitude(attrs, infos.last(), instigator))
        }
    }
}

/// The standing magnitudes align one to one with the standing templates.
pub proof fn lemma_standing_lens(
    attrs: AttributeStore,
    infos: Seq<ModifierInfo>,
    instigator: Option<u64>,
)
    ensures
        spec_standing_mags(attrs, infos, instigator).len() == spec_standing_infos(infos).len(),
    decreases infos.len(),
{
    if infos.len() > 0 {
        lemma_standing_lens(attrs, infos.drop_last(), instigator);
    }
}

/// The base value of one attribute row after folding a definition's AddBase
/// modifiers (with their evaluated magnitudes) into the rows of the target.
pub open spec fn spec_fold_base_row(
    base: int,
    infos: Seq<ModifierInfo>,
    mags: Seq<int>,
    target: u64,
    row_owner: u64,
    row_name: Seq<char>,
) -> int
    recommends
        mags.len() == infos.len(),
    decreases infos.len(),
{
    if infos.len() == 0 {
        base
    } else {
        let prev = spec_fold_base_row(
            base,
            infos.drop_last(),
            mags.drop_last(),
            target,
            row_owner,
            row_name,
        );
        if infos.last().operation is AddBase && row_owner == target && infos.last().attribute_name@
            == row_name {
            spec_sat_add(prev, mags.last())
        } else {
            prev
        }
    }
}

/// Whether an effect entry is an instance of the definition on the target.
pub open spec fn spec_is_instance_of(e: ActiveEffectEntry, target: u64, id: Seq<char>) -> bool {
    e.target.0 == target && e.effect.definition_id@ == id
}

/// Whether a standing modifier record carries the given template, magnitude
/// and source.
pub open spec fn spec_new_modifier_matches(
    m: ModifierEntry,
    info: ModifierInfo,
    mag: int,
    target: u64,
    source_id: u64,
) -> bool {
    &&& m.modifier.target_entity == target
    &&& m.modifier.target_attribute@ == info.attribute_name@
    &&& m.modifier.operation == info.operation
    &&& m.modifier.magnitude as int == mag
    &&& m.source == ModifierSource(source_id)
    &&& spec_calc_matches(m.calc, info.magnitude)
}

impl GameplayAbilitySystem {
    /// Whether the owner's current tags meet the requirements: no ignored
    /// tag held; when the require (or require-any) group is nonempty at
    /// least one of its tags held; every require-all tag held.
    pub open spec fn spec_meets_requirements(&self, owner: u64, reqs: TagRequirements) -> bool {
        &&& !(exists|i: int|
            0 <= i < reqs.ignore_tags@.len() && self.spec_owner_has_tag(
                owner,
                reqs.ignore_tags@[i]@,
            ))
        &&& reqs.require_tags@.len() > 0 ==> exists|i: int|
            0 <= i < reqs.require_tags@.len() && self.spec_owner_has_tag(
                owner,
                reqs.require_tags@[i]@,
            )
        &&& reqs.require_any_tags@.len() > 0 ==> exists|i: int|
            0 <= i < reqs.require_any_tags@.len() && self.spec_owner_has_tag(
                owner,
                reqs.require_any_tags@[i]@,
            )
        &&& forall|i: int|
            0 <= i < reqs.require_all_tags@.len() ==> self.spec_owner_has_tag(
                owner,
                reqs.require_all_tags@[i]@,
            )
    }

    /// Whether the definition already has an instance on the target.
    pub open spec fn spec_has_instance_of(&self, target: u64, id: Seq<char>) -> bool {
        exists|j: int|
            0 <= j < self.active_effects@.len() && spec_is_instance_of(
                self.active_effects@[j],
                target,
                id,
            )
    }

    /// The index of the first instance of the definition on the target.
    pub open spec fn spec_first_instance_of(&self, target: u64, id: Seq<char>) -> int {
        choose|j: int|
            0 <= j < self.active_effects@.len() && spec_is_instance_of(
                self.active_effects@[j],
                target,
                id,
            ) && forall|k: int|
                0 <= k < j ==> !spec_is_instance_of(self.active_effects@[k], target, id)
    }

    /// Checks the owner's tags against requirements; an owner without a
    /// tag container holds no tags.
    fn owner_meets_requirements(&self, owner: u64, reqs: &TagRequirements) -> (r: bool)
        requires
            self.wf(),
        ensures
            r == self.spec_meets_requirements(owner, *reqs),
    {
        match self.find_tag_container(owner) {
            Some(i) => {
                proof {
                    let k = self.spec_tag_container_index(owner);
                    assert(self.owner_tags@[k] == self.owner_tags@[i as int]);
                }
                let met = reqs.are_requirements_met(&self.owner_tags[i].tags);
                proof {
                    let c = &self.owner_tags@[i as int].tags;
                    assert(forall|n: Seq<char>| #[trigger] c.spec_has_tag(n)
                        == self.spec_owner_has_tag(owner, n));
                }
                met
            },
            None => {
                let empty = GameplayTagCountContainer::new();
                let met = reqs.are_requirements_met(&empty);
                proof {
                    assert(forall|n: Seq<char>| #[trigger] empty.spec_has_tag(n)
                        == self.spec_owner_has_tag(owner, n)) by {
                        assert(forall|n: Seq<char>|
                            !(#[trigger] empty.spec_has_tag(n)) && self.spec_owner_tag_count(owner, n)
                                == 0);
                    }
                }
                met
            },
        }
    }

    /// Finds the first instance of the definition on the target.
    fn find_instance_of(&self, target: u64, definition_id: &str) -> (r: Option<usize>)
        ensures
            match r {
                Some(j) => 0 <= j < self.active_effects@.len() && spec_is_instance_of(
                    self.active_effects@[j as int],
                    target,
                    definition_id@,
                ) && forall|k: int|
                    0 <= k < j ==> !spec_is_instance_of(
                        self.active_effects@[k],
                        target,
                        definition_id@,
                    ),
                None => !self.spec_has_instance_of(target, definition_id@),
            },
    {
        let mut j: usize = 0;
        while j < self.active_effects.len()
            invariant
                0 <= j <= self.active_effects@.len(),
                forall|k: int|
                    0 <= k < j ==> !spec_is_instance_of(
                        self.active_effects@[k],
                        target,
                        definition_id@,
                    ),
            decreases self.active_effects@.len() - j,
        {
            if self.active_effects[j].target.0 == target && crate::tags::str_eq(
                self.active_effects[j].effect.definition_id.as_str(),
                definition_id,
            ) {
                return Some(j);
            }
            j = j + 1;
        }
        None
    }
}

/// One live application of an effect definition to a target.
#[derive(Debug)]
pub struct ActiveEffectEntry {
    /// The instance id, unique over the world's lifetime.
    pub id: u64,
    /// The instance bookkeeping: definition id, level, start time, stacks.
    pub effect: ActiveGameplayEffect,
    /// The entity the effect applies to.
    pub target: EffectTarget,
    /// The entity that caused the application, if any.
    pub instigator: EffectInstigator,
    /// Countdown to expiry; present exactly for HasDuration effects.
    pub duration: Option<EffectDuration>,
    /// Countdown to the next periodic execution; present exactly when the
    /// definition's period was positive.
    pub periodic: Option<PeriodicEffect>,
    /// The tags granted to the target for this instance's lifetime.
    pub granted_tags: EffectGrantedTags,
    /// The AddBase modifier templates, folded into base values at creation
    /// and again at each periodic execution.
    pub base_folds: Vec<ModifierInfo>,
    /// Whether the definition's duration policy was Instant.
    pub instant: bool,
    /// Whether this instance has taken part in an aggregation pass; an
    /// instant instance is removed once it has.
    pub aggregated: bool,
}

/// One standing attribute modifier, owned by an active effect instance.
#[derive(Debug)]
pub struct ModifierEntry {
    /// The modifier itself.
    pub modifier: AttributeModifier,
    /// The owning effect instance.
    pub source: ModifierSource,
    /// The magnitude calculation, kept so periodic executions can
    /// re-evaluate the magnitude.
    pub calc: MagnitudeCalculation,
}

/// One granted ability.
#[derive(Debug)]
pub struct AbilityEntry {
    /// The grant id, unique over the world's lifetime.
    pub id: u64,
    /// The granted spec: definition id, level, input binding, active flag.
    pub spec: AbilitySpec,
    /// The owning entity.
    pub owner: AbilityOwner,
    /// The displayed state, recomputed every tick.
    pub state: AbilityState,
    /// The live activation, for instanced policies.
    pub instance: Option<ActiveAbilityInstance>,
    /// The running cooldown marker, if any.
    pub cooldown: Option<AbilityCooldown>,
    /// Whether the current activation has been committed.
    pub committed: bool,
}

/// The tag-count container of one owner.
#[derive(Debug)]
pub struct OwnerTags {
    /// The owning entity.
    pub owner: u64,
    /// Its granted tags.
    pub tags: GameplayTagCountContainer,
}

/// The whole simulation state.
#[derive(Debug)]
pub struct GameplayAbilitySystem {
    /// Registered effect definitions.
    pub effect_registry: GameplayEffectRegistry,
    /// Registered ability definitions.
    pub ability_registry: AbilityRegistry,
    /// All attribute rows.
    pub attributes: AttributeStore,
    /// Per-owner tag-count containers; owners are unique.
    pub owner_tags: Vec<OwnerTags>,
    /// Live effect instances.
    pub active_effects: Vec<ActiveEffectEntry>,
    /// Standing modifiers; each belongs to a live instance.
    pub modifiers: Vec<ModifierEntry>,
    /// Granted abilities.
    pub abilities: Vec<AbilityEntry>,
    /// Next effect instance id.
    pub next_effect_id: u64,
    /// Next ability grant id.
    pub next_ability_id: u64,
    /// Accumulated simulation time, fixed-point seconds.
    pub time: i64,
}

impl GameplayAbilitySystem {
    /// Structural soundness: registries and the attribute store are well
    /// formed, owners and ids are unique, ids stay below the counters,
    /// every standing modifier belongs to a live instance, and periodic
    /// timers sit in `(0, period]`.
    pub open spec fn wf(&self) -> bool {
        &&& self.effect_registry.wf()
        &&& self.ability_registry.wf()
        &&& self.attributes.wf()
        &&& forall|i: int, j: int|
            0 <= i < j < self.owner_tags@.len() ==> self.owner_tags@[i].owner
                != self.owner_tags@[j].owner
        &&& forall|i: int, j: int|
            0 <= i < j < self.active_effects@.len() ==> self.active_effects@[i].id
                != self.active_effects@[j].id
        &&& forall|i: int|
            0 <= i < self.active_effects@.len() ==> (#[trigger] self.active_effects@[i]).id
                < self.next_effect_id
        &&& forall|i: int|
            0 <= i < self.modifiers@.len() ==> self.spec_has_instance(
                (#[trigger] self.modifiers@[i]).source.0,
            )
        &&& forall|i: int, j: int|
            0 <= i < j < self.abilities@.len() ==> self.abilities@[i].id != self.abilities@[j].id
        &&& forall|i: int|
            0 <= i < self.abilities@.len() ==> (#[trigger] self.abilities@[i]).id
                < self.next_ability_id
        &&& forall|i: int|
            0 <= i < self.active_effects@.len() ==> match (#[trigger] self.active_effects@[i]).periodic {
                Some(p) => 0 < p.period && 0 < p.time_until_next <= p.period,
                None => true,
            }
    }

    /// Whether a live effect instance carries the id.
    pub open spec fn spec_has_instance(&self, id: u64) -> bool {
        exists|j: int| 0 <= j < self.active_effects@.len() && self.active_effects@[j].id == id
    }

    /// The index of the live effect instance with the id.
    pub open spec fn spec_instance_index(&self, id: u64) -> int {
        choose|j: int| 0 <= j < self.active_effects@.len() && self.active_effects@[j].id == id
    }

    /// Whether a granted ability carries the id.
    pub open spec fn spec_has_ability(&self, id: u64) -> bool {
        exists|j: int| 0 <= j < self.abilities@.len() && self.abilities@[j].id == id
    }

    /// The index of the granted ability with the id.
    pub open spec fn spec_ability_index(&self, id: u64) -> int {
        choose|j: int| 0 <= j < self.abilities@.len() && self.abilities@[j].id == id
    }

    /// Whether a tag container exists for the owner.
    pub open spec fn spec_has_tag_container(&self, owner: u64) -> bool {
        exists|i: int| 0 <= i < self.owner_tags@.len() && self.owner_tags@[i].owner == owner
    }

    /// The index of the owner's tag container.
    pub open spec fn spec_tag_container_index(&self, owner: u64) -> int {
        choose|i: int| 0 <= i < self.owner_tags@.len() && self.owner_tags@[i].owner == owner
    }

    /// How many grants of the name the owner holds; an owner without a
    /// container holds none.
    pub open spec fn spec_owner_tag_count(&self, owner: u64, name: Seq<char>) -> int {
        if self.spec_has_tag_container(owner) {
            self.owner_tags@[self.spec_tag_container_index(owner)].tags.spec_tag_count(name)
        } else {
            0
        }
    }

    /// Whether the owner holds the tag at all.
    pub open spec fn spec_owner_has_tag(&self, owner: u64, name: Seq<char>) -> bool {
        self.spec_owner_tag_count(owner, name) > 0
    }

    /// Creates an empty world.
    pub fn new() -> (s: Self)
        ensures
            s.wf(),
            s.effect_registry.definitions@.len() == 0,
            s.ability_registry.definitions@.len() == 0,
            s.attributes.entries@.len() == 0,
            s.owner_tags@.len() == 0,
            s.active_effects@.len() == 0,
            s.modifiers@.len() == 0,
            s.abilities@.len() == 0,
            s.next_effect_id == 0,
            s.next_ability_id == 0,
            s.time == 0,
    {
        GameplayAbilitySystem {
            effect_registry: GameplayEffectRegistry::new(),
            ability_registry: AbilityRegistry::new(),
            attributes: AttributeStore::new(),
            owner_tags: Vec::new(),
            active_effects: Vec::new(),
            modifiers: Vec::new(),
            abilities: Vec::new(),
            next_effect_id: 0,
            next_ability_id: 0,
            time: 0,
        }
    }

    /// Finds the index of the owner's tag container.
    fn find_tag_container(&self, owner: u64) -> (r: Option<usize>)
        ensures
            match r {
                Some(i) => 0 <= i < self.owner_tags@.len() && self.owner_tags@[i as int].owner
                    == owner,
                None => !self.spec_has_tag_container(owner),
            },
    {
        let mut i: usize = 0;
        while i < self.owner_tags.len()
            invariant
                0 <= i <= self.owner_tags@.len(),
                forall|j: int| 0 <= j < i ==> self.owner_tags@[j].owner != owner,
            decreases self.owner_tags@.len() - i,
        {
            if self.owner_tags[i].owner == owner {
                return Some(i);
            }
            i = i + 1;
        }
        None
    }

    /// The collaborator-facing tag query: whether the owner currently holds
    /// the tag, by exact name.
    pub fn has_matching_tag(&self, owner: u64, tag: &GameplayTag) -> (r: bool)
        requires
            self.wf(),
        ensures
            r == self.spec_owner_has_tag(owner, tag@),
    {
        match self.find_tag_container(owner) {
            Some(i) => {
                proof {
                    let k = self.spec_tag_container_index(owner);
                    assert(self.owner_tags@[k] == self.owner_tags@[i as int]);
                }
                self.owner_tags[i].tags.has_matching_gameplay_tag(tag)
            },
            None => false,
        }
    }

    /// Grants an ability to an owner and returns the grant id. The ability
    /// starts out inactive, ready, uncommitted and without cooldown.
    pub fn grant_ability(&mut self, owner: u64, definition_id: &str, level: i32) -> (id: u64)
        requires
            old(self).wf(),
            old(self).next_ability_id < u64::MAX,
        ensures
            final (self).wf(),
            id == old(self).next_ability_id,
            final (self).next_ability_id == old(self).next_ability_id + 1,
            final (self).abilities@.len() == old(self).abilities@.len() + 1,
            forall|j: int|
                0 <= j < old(self).abilities@.len() ==> final (self).abilities@[j] == old(
                    self,
                ).abilities@[j],
            ({
                let e = final (self).abilities@.last();
                e.id == id && e.spec.definition_id@ == definition_id@ && e.spec.level == level
                    && e.spec.input_id is None && !e.spec.is_active && e.owner
                    == AbilityOwner(owner) && e.state == AbilityState::Ready && e.instance is None
                    && e.cooldown is None && !e.committed
            }),
            final (self).effect_registry == old(self).effect_registry,
            final (self).ability_registry == old(self).ability_registry,
            final (self).attributes == old(self).attributes,
            final (self).owner_tags == old(self).owner_tags,
            final (self).active_effects == old(self).active_effects,
            final (self).modifiers == old(self).modifiers,
            final (self).next_effect_id == old(self).next_effect_id,
            final (self).time == old(self).time,
    {
        let id = self.next_ability_id;
        let entry = AbilityEntry {
            id,
            spec: AbilitySpec::new(definition_id.to_owned(), level),
            owner: AbilityOwner(owner),
            state: AbilityState::Ready,
            instance: None,
            cooldown: None,
            committed: false,
        };
        self.abilities.push(entry);
        self.next_ability_id = id + 1;
        id
    }

    /// What one application of an effect definition does to the world.
    ///
    /// An unknown id is refused and changes nothing. A target whose tags
    /// fail the definition's application requirements is refused and
    /// changes nothing. Reapplication under RefreshDuration resets the
    /// existing instance's remaining duration; under StackCount it bumps
    /// the stack count up to the cap; neither creates a second instance.
    /// Otherwise a fresh instance is created: its AddBase modifiers fold
    /// into the target's base values once, its other modifiers become
    /// standing modifiers with magnitudes evaluated against the instigator,
    /// and its granted tags are granted to the target.
    pub open spec fn spec_apply_effect_transition(
        pre: Self,
        post: Self,
        id: Seq<char>,
        target: u64,
        instigator: Option<u64>,
        level: i32,
        result: Result<u64, EffectError>,
    ) -> bool {
        if !pre.effect_registry.spec_has(id) {
            &&& post == pre
            &&& result == Err::<u64, EffectError>(EffectError::DefinitionNotFound)
        } else {
            let def = pre.effect_registry.definitions@[pre.effect_registry.spec_index_of(id)];
            if !pre.spec_meets_requirements(target, def.application_tag_requirements) {
                &&& post == pre
                &&& result == Err::<u64, EffectError>(EffectError::TagRequirementsFailed)
            } else if def.stacking_policy == StackingPolicy::RefreshDuration
                && pre.spec_has_instance_of(target, id) {
                let j = pre.spec_first_instance_of(target, id);
                &&& result == Ok::<u64, EffectError>(pre.active_effects@[j].id)
                &&& post.active_effects@.len() == pre.active_effects@.len()
                &&& forall|k: int|
                    0 <= k < pre.active_effects@.len() && k != j ==> post.active_effects@[k]
                        == pre.active_effects@[k]
                &&& Self::spec_entry_refreshed(pre.active_effects@[j], post.active_effects@[j])
                &&& Self::spec_same_but_active_effects(pre, post)
            } else {
                match def.stacking_policy {
                    StackingPolicy::StackCount { max_stacks } => {
                        if pre.spec_has_instance_of(target, id) {
                            let j = pre.spec_first_instance_of(target, id);
                            &&& result == Ok::<u64, EffectError>(pre.active_effects@[j].id)
                            &&& post.active_effects@.len() == pre.active_effects@.len()
                            &&& forall|k: int|
                                0 <= k < pre.active_effects@.len() && k != j
                                    ==> post.active_effects@[k] == pre.active_effects@[k]
                            &&& Self::spec_entry_stacked(
                                pre.active_effects@[j],
                                post.active_effects@[j],
                                max_stacks,
                            )
                            &&& Self::spec_same_but_active_effects(pre, post)
                        } else {
                            &&& result == Ok::<u64, EffectError>(pre.next_effect_id)
                            &&& Self::spec_apply_creates(pre, post, def, target, instigator, level)
                        }
                    },
                    _ => {
                        &&& result == Ok::<u64, EffectError>(pre.next_effect_id)
                        &&& Self::spec_apply_creates(pre, post, def, target, instigator, level)
                    },
                }
            }
        }
    }

    /// The attribute store after the AddBase modifiers of the definition at
    /// registry index `di` have folded into the target's base values.
    pub open spec fn spec_attrs_folded(
        pre: Self,
        now: AttributeStore,
        target: u64,
        instigator: Option<u64>,
        di: int,
    ) -> bool {
        let infos = pre.effect_registry.definitions@[di].modifiers@;
        let mags = spec_eval_mags(pre.attributes, infos, instigator);
        &&& now.wf()
        &&& now.entries@.len() == pre.attributes.entries@.len()
        &&& forall|j: int|
            0 <= j < pre.attributes.entries@.len() ==> {
                let prev = #[trigger] pre.attributes.entries@[j];
                let e = now.entries@[j];
                e.owner == prev.owner && e.name@ == prev.name@ && e.metadata == prev.metadata
                    && e.data.current_value == prev.data.current_value
                    && e.data.base_value as int == spec_fold_base_row(
                    prev.data.base_value as int,
                    infos,
                    mags,
                    target,
                    prev.owner,
                    prev.name@,
                )
            }
    }

    /// The modifier table after the standing modifiers of the definition at
    /// registry index `di` have been appended for a new instance `id`.
    pub open spec fn spec_modifiers_extended(
        pre: Self,
        now: Seq<ModifierEntry>,
        target: u64,
        instigator: Option<u64>,
        di: int,
        id: u64,
    ) -> bool {
        let infos = pre.effect_registry.definitions@[di].modifiers@;
        &&& now.len() == pre.modifiers@.len() + spec_standing_infos(infos).len()
        &&& forall|t: int| 0 <= t < pre.modifiers@.len() ==> now[t] == pre.modifiers@[t]
        &&& forall|t: int|
            0 <= t < spec_standing_infos(infos).len() ==> spec_new_modifier_matches(
                now[pre.modifiers@.len() + t],
                spec_standing_infos(infos)[t],
                spec_standing_mags(pre.attributes, infos, instigator)[t],
                target,
                id,
            )
    }

    /// Everything outside the active effect table is unchanged.
    pub open spec fn spec_same_but_active_effects(pre: Self, post: Self) -> bool {
        &&& post.effect_registry == pre.effect_registry
        &&& post.ability_registry == pre.ability_registry
        &&& post.attributes == pre.attributes
        &&& post.owner_tags == pre.owner_tags
        &&& post.modifiers == pre.modifiers
        &&& post.abilities == pre.abilities
        &&& post.next_effect_id == pre.next_effect_id
        &&& post.next_ability_id == pre.next_ability_id
        &&& post.time == pre.time
    }

    /// The instance after a RefreshDuration reapplication: its remaining
    /// duration is reset to the total, everything else kept.
    pub open spec fn spec_entry_refreshed(prev: ActiveEffectEntry, now: ActiveEffectEntry) -> bool {
        &&& now.id == prev.id
        &&& now.effect == prev.effect
        &&& now.target == prev.target
        &&& now.instigator == prev.instigator
        &&& now.duration == match prev.duration {
            Some(d) => Some(EffectDuration { remaining: d.total, total: d.total }),
            None => None,
        }
        &&& now.periodic == prev.periodic
        &&& now.granted_tags == prev.granted_tags
        &&& now.base_folds == prev.base_folds
        &&& now.instant == prev.instant
        &&& now.aggregated == prev.aggregated
    }

    /// The instance after a StackCount reapplication: one more stack, up to
    /// the cap, everything else kept.
    pub open spec fn spec_entry_stacked(prev: ActiveEffectEntry, now: ActiveEffectEntry, max: i32) -> bool {
        &&& now.id == prev.id
        &&& now.effect.definition_id == prev.effect.definition_id
        &&& now.effect.level == prev.effect.level
        &&& now.effect.start_time == prev.effect.start_time
        &&& now.effect.stack_count as int == (if prev.effect.stack_count < max {
            prev.effect.stack_count + 1
        } else {
            prev.effect.stack_count as int
        })
        &&& now.target == prev.target
        &&& now.instigator == prev.instigator
        &&& now.duration == prev.duration
        &&& now.periodic == prev.periodic
        &&& now.granted_tags == prev.granted_tags
        &&& now.base_folds == prev.base_folds
        &&& now.instant == prev.instant
        &&& now.aggregated == prev.aggregated
    }

    /// The newly created instance entry.
    pub open spec fn spec_created_entry_matches(
        e: ActiveEffectEntry,
        pre: Self,
        def: GameplayEffectDefinition,
        target: u64,
        instigator: Option<u64>,
        level: i32,
    ) -> bool {
        &&& e.id == pre.next_effect_id
        &&& e.effect.definition_id@ == def.id@
        &&& e.effect.level == level
        &&& e.effect.start_time == pre.time
        &&& e.effect.stack_count == 1
        &&& e.target == EffectTarget(target)
        &&& e.instigator == EffectInstigator(instigator)
        &&& e.duration == (if def.duration_policy is HasDuration {
            Some(EffectDuration { remaining: def.duration_magnitude, total: def.duration_magnitude })
        } else {
            Option::<EffectDuration>::None
        })
        &&& e.periodic == (if def.period > 0 {
            Some(PeriodicEffect { period: def.period, time_until_next: def.period })
        } else {
            Option::<PeriodicEffect>::None
        })
        &&& e.granted_tags.tags@.len() == def.granted_tags@.len()
        &&& forall|t: int|
            0 <= t < def.granted_tags@.len() ==> e.granted_tags.tags@[t]@ == def.granted_tags@[t]@
        &&& e.base_folds@.len() == spec_add_base_infos(def.modifiers@).len()
        &&& forall|t: int|
            0 <= t < e.base_folds@.len() ==> spec_info_matches(
                e.base_folds@[t],
                spec_add_base_infos(def.modifiers@)[t],
            )
        &&& e.instant == (def.duration_policy is Instant)
        &&& !e.aggregated
    }

    /// Creation of a fresh instance: a new entry is appended, its standing
    /// modifiers are appended with evaluated magnitudes, its AddBase
    /// modifiers fold into the target's base values, and its granted tags
    /// raise the target's tag counts. Abilities, registries and the clock
    /// are untouched.
    pub open spec fn spec_apply_creates(
        pre: Self,
        post: Self,
        def: GameplayEffectDefinition,
        target: u64,
        instigator: Option<u64>,
        level: i32,
    ) -> bool {
        let mags = spec_eval_mags(pre.attributes, def.modifiers@, instigator);
        &&& post.next_effect_id == pre.next_effect_id + 1
        &&& post.next_ability_id == pre.next_ability_id
        &&& post.time == pre.time
        &&& post.effect_registry == pre.effect_registry
        &&& post.ability_registry == pre.ability_registry
        &&& post.abilities == pre.abilities
        &&& post.active_effects@.len() == pre.active_effects@.len() + 1
        &&& forall|k: int|
            0 <= k < pre.active_effects@.len() ==> post.active_effects@[k]
                == pre.active_effects@[k]
        &&& Self::spec_created_entry_matches(
            post.active_effects@.last(),
            pre,
            def,
            target,
            instigator,
            level,
        )
        &&& post.modifiers@.len() == pre.modifiers@.len() + spec_standing_infos(
            def.modifiers@,
        ).len()
        &&& forall|k: int| 0 <= k < pre.modifiers@.len() ==> post.modifiers@[k] == pre.modifiers@[k]
        &&& forall|k: int|
            0 <= k < spec_standing_infos(def.modifiers@).len() ==> spec_new_modifier_matches(
                post.modifiers@[pre.modifiers@.len() + k],
                spec_standing_infos(def.modifiers@)[k],
                spec_standing_mags(pre.attributes, def.modifiers@, instigator)[k],
                target,
                pre.next_effect_id,
            )
        &&& post.attributes.entries@.len() == pre.attributes.entries@.len()
        &&& forall|j: int|
            0 <= j < pre.attributes.entries@.len() ==> {
                let prev = #[trigger] pre.attributes.entries@[j];
                let now = post.attributes.entries@[j];
                now.owner == prev.owner && now.name@ == prev.name@ && now.metadata == prev.metadata
                    && now.data.current_value == prev.data.current_value
                    && now.data.base_value as int == spec_fold_base_row(
                    prev.data.base_value as int,
                    def.modifiers@,
                    mags,
                    target,
                    prev.owner,
                    prev.name@,
                )
            }
        &&& forall|o: u64, n: Seq<char>|
            #[trigger] post.spec_owner_tag_count(o, n) == pre.spec_owner_tag_count(o, n) + (if o
                == target {
                tag_occurrences(def.granted_tags@, n)
            } else {
                0
            })
    }

    /// Applies a gameplay effect to a target, as `spec_apply_effect_transition`
    /// describes, and returns the id of the created (or refreshed, or
    /// stacked) instance.
    pub fn apply_effect(
        &mut self,
        effect_id: &str,
        target: u64,
        instigator: Option<u64>,
        level: i32,
    ) -> (r: Result<u64, EffectError>)
        requires
            old(self).wf(),
            old(self).next_effect_id < u64::MAX,
        ensures
            final (self).wf(),
            Self::spec_apply_effect_transition(
                *old(self),
                *final (self),
                effect_id@,
                target,
                instigator,
                level,
                r,
            ),
    {
        let di = match self.effect_registry.find(effect_id) {
            Some(di) => di,
            None => {
                return Err(EffectError::DefinitionNotFound);
            },
        };
        proof {
            let k = self.effect_registry.spec_index_of(effect_id@);
            assert(k == di);
        }
        if !self.owner_meets_requirements(target, &self.effect_registry.definitions[di].application_tag_requirements) {
            return Err(EffectError::TagRequirementsFailed);
        }
        let policy = self.effect_registry.definitions[di].stacking_policy;
        match policy {
            StackingPolicy::RefreshDuration => {
                if let Some(j) = self.find_instance_of(target, effect_id) {
                    proof {
                        self.lemma_first_instance_is(target, effect_id@, j as int);
                    }
                    let d = self.active_effects[j].duration;
                    if let Some(dd) = d {
                        self.active_effects[j].duration = Some(
                            EffectDuration { remaining: dd.total, total: dd.total },
                        );
                    }
                    let rid = self.active_effects[j].id;
                    proof {
                        self.lemma_wf_after_entry_touch(old(self), j as int);
                    }
                    return Ok(rid);
                }
            },
            StackingPolicy::StackCount { max_stacks } => {
                if let Some(j) = self.find_instance_of(target, effect_id) {
                    proof {
                        self.lemma_first_instance_is(target, effect_id@, j as int);
                    }
                    let sc = self.active_effects[j].effect.stack_count;
                    if sc < max_stacks {
                        self.active_effects[j].effect.stack_count = sc + 1;
                    }
                    let rid = self.active_effects[j].id;
                    proof {
                        self.lemma_wf_after_entry_touch(old(self), j as int);
                    }
                    return Ok(rid);
                }
            },
            StackingPolicy::Independent => {},
        }
        let id = self.create_instance(di, target, instigator, level);
        Ok(id)
    }

    /// A world stays well formed when one effect entry changes without
    /// touching its id, its target or its periodic timer.
    proof fn lemma_wf_after_entry_touch(&self, prev: &Self, j: int)
        requires
            prev.wf(),
            0 <= j < prev.active_effects@.len(),
            self.active_effects@.len() == prev.active_effects@.len(),
            forall|k: int|
                0 <= k < prev.active_effects@.len() && k != j ==> self.active_effects@[k]
                    == prev.active_effects@[k],
            self.active_effects@[j].id == prev.active_effects@[j].id,
            self.active_effects@[j].periodic == prev.active_effects@[j].periodic,
            self.effect_registry == prev.effect_registry,
            self.ability_registry == prev.ability_registry,
            self.attributes == prev.attributes,
            self.owner_tags == prev.owner_tags,
            self.modifiers == prev.modifiers,
            self.abilities == prev.abilities,
            self.next_effect_id == prev.next_effect_id,
            self.next_ability_id == prev.next_ability_id,
        ensures
            self.wf(),
    {
        assert(forall|k: int|
            0 <= k < self.active_effects@.len() ==> (#[trigger] self.active_effects@[k]).id
                == prev.active_effects@[k].id);
        assert(forall|k: int|
            0 <= k < self.active_effects@.len() ==> (#[trigger] self.active_effects@[k]).periodic
                == prev.active_effects@[k].periodic);
        assert forall|i: int|
            0 <= i < self.modifiers@.len() implies self.spec_has_instance(
            (#[trigger] self.modifiers@[i]).source.0,
        ) by {
            assert(prev.spec_has_instance(prev.modifiers@[i].source.0));
            let w = prev.spec_instance_index(prev.modifiers@[i].source.0);
            assert(self.active_effects@[w].id == self.modifiers@[i].source.0);
        }
    }

    /// The first matching instance the search finds is the one the spec
    /// picks.
    proof fn lemma_first_instance_is(&self, target: u64, id: Seq<char>, j: int)
        requires
            0 <= j < self.active_effects@.len(),
            spec_is_instance_of(self.active_effects@[j], target, id),
            forall|k: int| 0 <= k < j ==> !spec_is_instance_of(self.active_effects@[k], target, id),
        ensures
            self.spec_has_instance_of(target, id),
            self.spec_first_instance_of(target, id) == j,
    {
        assert(self.spec_has_instance_of(target, id));
        let c = self.spec_first_instance_of(target, id);
        assert(0 <= c < self.active_effects@.len() && spec_is_instance_of(
            self.active_effects@[c],
            target,
            id,
        ) && forall|k: int| 0 <= k < c ==> !spec_is_instance_of(self.active_effects@[k], target, id));
        if c < j {
            assert(!spec_is_instance_of(self.active_effects@[c], target, id));
        }
        if j < c {
            assert(!spec_is_instance_of(self.active_effects@[j], target, id));
        }
    }

    /// Creates a fresh instance of the definition at registry index `di`.
    #[verifier::loop_isolation(false)]
    fn create_instance(&mut self, di: usize, target: u64, instigator: Option<u64>, level: i32) -> (id: u64)
        requires
            old(self).wf(),
            old(self).next_effect_id < u64::MAX,
            0 <= di < old(self).effect_registry.definitions@.len(),
        ensures
            final (self).wf(),
            id == old(self).next_effect_id,
            Self::spec_apply_creates(
                *old(self),
                *final (self),
                old(self).effect_registry.definitions@[di as int],
                target,
                instigator,
                level,
            ),
    {
        let ghost infos = old(self).effect_registry.definitions@[di as int].modifiers@;
        let ghost mag_ints = spec_eval_mags(old(self).attributes, infos, instigator);
        let id = self.next_effect_id;

        // Evaluate every modifier magnitude against the untouched store.
        let mut mags: Vec<i64> = Vec::new();
        let mut k: usize = 0;
        while k < self.effect_registry.definitions[di].modifiers.len()
            invariant
                *self == *old(self),
                0 <= k <= infos.len(),
                mags@.len() == k,
                forall|t: int| 0 <= t < k ==> mags@[t] as int == mag_ints[t],
            decreases infos.len() - k,
        {
            let source_val: Option<i64> = match &self.effect_registry.definitions[di].modifiers[k].magnitude {
                MagnitudeCalculation::AttributeBased {
                    attribute_name,
                    coefficient: _,
                    pre_multiply_additive: _,
                    post_multiply_additive: _,
                } => match instigator {
                    Some(inst) => self.attributes.get_current(inst, attribute_name.as_str()),
                    None => None,
                },
                _ => None,
            };
            let m = self.effect_registry.definitions[di].modifiers[k].magnitude.evaluate(
                level,
                source_val,
            );
            mags.push(m);
            k = k + 1;
        }

        // Fold AddBase modifiers into the target's base values.
        let mut k: usize = 0;
        while k < self.effect_registry.definitions[di].modifiers.len()
            invariant
                0 <= k <= infos.len(),
                self.effect_registry == old(self).effect_registry,
                self.ability_registry == old(self).ability_registry,
                self.owner_tags == old(self).owner_tags,
                self.active_effects == old(self).active_effects,
                self.modifiers == old(self).modifiers,
                self.abilities == old(self).abilities,
                self.next_effect_id == old(self).next_effect_id,
                self.next_ability_id == old(self).next_ability_id,
                self.time == old(self).time,
                self.attributes.wf(),
                self.attributes.entries@.len() == old(self).attributes.entries@.len(),
                forall|j: int|
                    0 <= j < old(self).attributes.entries@.len() ==> {
                        let prev = #[trigger] old(self).attributes.entries@[j];
                        let now = self.attributes.entries@[j];
                        now.owner == prev.owner && now.name@ == prev.name@ && now.metadata
                            == prev.metadata && now.data.current_value == prev.data.current_value
                            && now.data.base_value as int == spec_fold_base_row(
                            prev.data.base_value as int,
                            infos.take(k as int),
                            mag_ints.take(k as int),
                            target,
                            prev.owner,
                            prev.name@,
                        )
                    },
            decreases infos.len() - k,
        {
            proof {
                assert(infos.take(k + 1).drop_last() =~= infos.take(k as int));
                assert(mag_ints.take(k + 1).drop_last() =~= mag_ints.take(k as int));
                assert(infos.take(k + 1).last() == infos[k as int]);
                assert(mag_ints.take(k + 1).last() == mag_ints[k as int]);
            }
            let op = self.effect_registry.definitions[di].modifiers[k].operation;
            match op {
                ModifierOperation::AddBase => {
                    let delta = mags[k];
                    self.attributes.add_to_base(
                        target,
                        self.effect_registry.definitions[di].modifiers[k].attribute_name.as_str(),
                        delta,
                    );
                },
                _ => {},
            }
            k = k + 1;
        }
        proof {
            assert(infos.take(infos.len() as int) =~= infos);
            assert(mag_ints.take(mag_ints.len() as int) =~= mag_ints);
        }

        // Append the standing modifiers.
        let mut k: usize = 0;
        while k < self.effect_registry.definitions[di].modifiers.len()
            invariant
                0 <= k <= infos.len(),
                self.effect_registry == old(self).effect_registry,
                self.ability_registry == old(self).ability_registry,
                self.owner_tags == old(self).owner_tags,
                self.active_effects == old(self).active_effects,
                self.abilities == old(self).abilities,
                self.next_effect_id == old(self).next_effect_id,
                self.next_ability_id == old(self).next_ability_id,
                self.time == old(self).time,
                Self::spec_attrs_folded(*old(self), self.attributes, target, instigator, di as int),
                self.modifiers@.len() == old(self).modifiers@.len() + spec_standing_infos(
                    infos.take(k as int),
                ).len(),
                forall|t: int|
                    0 <= t < old(self).modifiers@.len() ==> self.modifiers@[t] == old(
                        self,
                    ).modifiers@[t],
                forall|t: int|
                    0 <= t < spec_standing_infos(infos.take(k as int)).len()
                        ==> spec_new_modifier_matches(
                        self.modifiers@[old(self).modifiers@.len() + t],
                        spec_standing_infos(infos.take(k as int))[t],
                        spec_standing_mags(old(self).attributes, infos.take(k as int), instigator)[t],
                        target,
                        id,
                    ),
            decreases infos.len() - k,
        {
            proof {
                assert(infos.take(k + 1).drop_last() =~= infos.take(k as int));
                assert(infos.take(k + 1).last() == infos[k as int]);
                lemma_standing_lens(old(self).attributes, infos.take(k as int), instigator);
                lemma_standing_lens(old(self).attributes, infos.take(k + 1), instigator);
                assert(mag_ints[k as int] == spec_modifier_magnitude(
                    old(self).attributes,
                    infos[k as int],
                    instigator,
                ));
                if infos[k as int].operation is AddBase {
                    assert(spec_standing_infos(infos.take(k + 1)) == spec_standing_infos(
                        infos.take(k as int),
                    ));
                    assert(spec_standing_mags(old(self).attributes, infos.take(k + 1), instigator)
                        == spec_standing_mags(
                        old(self).attributes,
                        infos.take(k as int),
                        instigator,
                    ));
                } else {
                    assert(spec_standing_infos(infos.take(k + 1)) == spec_standing_infos(
                        infos.take(k as int),
                    ).push(infos[k as int]));
                    assert(spec_standing_mags(old(self).attributes, infos.take(k + 1), instigator)
                        == spec_standing_mags(
                        old(self).attributes,
                        infos.take(k as int),
                        instigator,
                    ).push(spec_modifier_magnitude(old(self).attributes, infos[k as int], instigator)));
                }
            }
            let op = self.effect_registry.definitions[di].modifiers[k].operation;
            match op {
                ModifierOperation::AddBase => {},
                _ => {
                    let entry = ModifierEntry {
                        modifier: AttributeModifier {
                            target_entity: target,
                            target_attribute: self.effect_registry.definitions[di].modifiers[k].attribute_name.clone(),
                            operation: op,
                            magnitude: mags[k],
                        },
                        source: ModifierSource(id),
                        calc: self.effect_registry.definitions[di].modifiers[k].magnitude.clone(),
                    };
                    self.modifiers.push(entry);
                },
            }
            k = k + 1;
        }
        proof {
            assert(infos.take(infos.len() as int) =~= infos);
        }

        // Grant the definition's tags to the target.
        let ghost tags_before = self.owner_tags@;
        let cidx: usize = match self.find_tag_container(target) {
            Some(i) => i,
            None => {
                let fresh = OwnerTags { owner: target, tags: GameplayTagCountContainer::new() };
                self.owner_tags.push(fresh);
                self.owner_tags.len() - 1
            },
        };
        let ghost tags_start = self.owner_tags@;
        let mut g: usize = 0;
        while g < self.effect_registry.definitions[di].granted_tags.len()
            invariant
                0 <= g <= old(self).effect_registry.definitions@[di as int].granted_tags@.len(),
                self.effect_registry == old(self).effect_registry,
                self.ability_registry == old(self).ability_registry,
                self.active_effects == old(self).active_effects,
                self.abilities == old(self).abilities,
                self.next_effect_id == old(self).next_effect_id,
                self.next_ability_id == old(self).next_ability_id,
                self.time == old(self).time,
                Self::spec_attrs_folded(*old(self), self.attributes, target, instigator, di as int),
                Self::spec_modifiers_extended(
                    *old(self),
                    self.modifiers@,
                    target,
                    instigator,
                    di as int,
                    id,
                ),
                self.owner_tags@.len() == tags_start.len(),
                0 <= cidx < tags_start.len(),
                forall|j: int| 0 <= j < tags_start.len() && j != cidx ==> self.owner_tags@[j] == tags_start[j],
                self.owner_tags@[cidx as int].owner == target,
                forall|n: Seq<char>|
                    #[trigger] self.owner_tags@[cidx as int].tags.spec_tag_count(n)
                        == tags_start[cidx as int].tags.spec_tag_count(n) + tag_occurrences(
                        old(self).effect_registry.definitions@[di as int].granted_tags@.take(g as int),
                        n,
                    ),
            decreases old(self).effect_registry.definitions@[di as int].granted_tags@.len() - g,
        {
            proof {
                let gt = old(self).effect_registry.definitions@[di as int].granted_tags@;
                assert(gt.take(g + 1).drop_last() =~= gt.take(g as int));
                assert(gt.take(g + 1).last() == gt[g as int]);
            }
            let tag_ref = &self.effect_registry.definitions[di].granted_tags[g];
            self.owner_tags[cidx].tags.add_tag(tag_ref);
            g = g + 1;
        }
        proof {
            let gt = old(self).effect_registry.definitions@[di as int].granted_tags@;
            assert(gt.take(gt.len() as int) =~= gt);
        }

        // Record the instance itself.
        let mut granted: Vec<GameplayTag> = Vec::new();
        let mut g: usize = 0;
        while g < self.effect_registry.definitions[di].granted_tags.len()
            invariant
                0 <= g <= old(self).effect_registry.definitions@[di as int].granted_tags@.len(),
                self.effect_registry == old(self).effect_registry,
                granted@.len() == g,
                forall|t: int|
                    0 <= t < g ==> granted@[t]@ == old(
                        self,
                    ).effect_registry.definitions@[di as int].granted_tags@[t]@,
            decreases old(self).effect_registry.definitions@[di as int].granted_tags@.len() - g,
        {
            granted.push(self.effect_registry.definitions[di].granted_tags[g].clone());
            g = g + 1;
        }
        let mut folds: Vec<ModifierInfo> = Vec::new();
        let mut k: usize = 0;
        while k < self.effect_registry.definitions[di].modifiers.len()
            invariant
                0 <= k <= infos.len(),
                self.effect_registry == old(self).effect_registry,
                folds@.len() == spec_add_base_infos(infos.take(k as int)).len(),
                forall|t: int|
                    0 <= t < folds@.len() ==> spec_info_matches(
                        folds@[t],
                        spec_add_base_infos(infos.take(k as int))[t],
                    ),
            decreases infos.len() - k,
        {
            proof {
                assert(infos.take(k + 1).drop_last() =~= infos.take(k as int));
                assert(infos.take(k + 1).last() == infos[k as int]);
            }
            let op = self.effect_registry.definitions[di].modifiers[k].operation;
            match op {
                ModifierOperation::AddBase => {
                    folds.push(self.effect_registry.definitions[di].modifiers[k].clone());
                },
                _ => {},
            }
            k = k + 1;
        }
        proof {
            assert(infos.take(infos.len() as int) =~= infos);
        }
        let definition_id = self.effect_registry.definitions[di].id.clone();
        let duration: Option<EffectDuration> = match self.effect_registry.definitions[di].duration_policy {
            DurationPolicy::HasDuration => Some(
                EffectDuration::new(self.effect_registry.definitions[di].duration_magnitude),
            ),
            _ => None,
        };
        let period = self.effect_registry.definitions[di].period;
        let periodic: Option<PeriodicEffect> = if period > 0 {
            Some(PeriodicEffect::new(period))
        } else {
            None
        };
        let instant = match self.effect_registry.definitions[di].duration_policy {
            DurationPolicy::Instant => true,
            _ => false,
        };
        let entry = ActiveEffectEntry {
            id,
            effect: ActiveGameplayEffect::new(definition_id, level, self.time),
            target: EffectTarget(target),
            instigator: EffectInstigator(instigator),
            duration,
            periodic,
            granted_tags: EffectGrantedTags { tags: granted },
            base_folds: folds,
            instant,
            aggregated: false,
        };
        self.active_effects.push(entry);
        self.next_effect_id = id + 1;
        proof {
            let pre = *old(self);
            let def = pre.effect_registry.definitions@[di as int];
            let post = *self;

            // The target's tag counts rose by the granted multiplicities;
            // every other owner's counts are untouched.
            assert(tags_before == pre.owner_tags@);
            assert forall|o: u64, n: Seq<char>| true implies #[trigger] post.spec_owner_tag_count(
                o,
                n,
            ) == pre.spec_owner_tag_count(o, n) + (if o == target {
                tag_occurrences(def.granted_tags@, n)
            } else {
                0
            }) by {
                let appended = tags_start.len() == tags_before.len() + 1;
                assert(forall|j: int|
                    0 <= j < tags_start.len() ==> (#[trigger] post.owner_tags@[j]).owner
                        == tags_start[j].owner);
                if o == target {
                    assert(post.owner_tags@[cidx as int].owner == target);
                    assert(post.spec_has_tag_container(target));
                    let c = post.spec_tag_container_index(target);
                    assert(0 <= c < post.owner_tags@.len() && post.owner_tags@[c].owner == target);
                    if c != cidx as int {
                        assert(tags_start[c].owner == target);
                        if appended {
                            assert(c < tags_before.len());
                            assert(pre.owner_tags@[c].owner == target);
                            assert(pre.spec_has_tag_container(target));
                            assert(false);
                        } else {
                            assert(pre.owner_tags@[c].owner == target);
                            assert(pre.owner_tags@[cidx as int].owner == target);
                            assert(false);
                        }
                    }
                    if appended {
                        assert(!pre.spec_has_tag_container(target));
                        assert(pre.spec_owner_tag_count(target, n) == 0);
                        assert(tags_start[cidx as int].tags.spec_tag_count(n) == 0);
                    } else {
                        assert(pre.owner_tags@[cidx as int].owner == target);
                        assert(pre.spec_has_tag_container(target));
                        let cp = pre.spec_tag_container_index(target);
                        assert(0 <= cp < pre.owner_tags@.len() && pre.owner_tags@[cp].owner
                            == target);
                        assert(cp == cidx as int);
                        assert(tags_start[cidx as int] == pre.owner_tags@[cidx as int]);
                    }
                } else {
                    if post.spec_has_tag_container(o) {
                        let c = post.spec_tag_container_index(o);
                        assert(post.owner_tags@[c].owner == o);
                        assert(c != cidx as int);
                        assert(post.owner_tags@[c] == tags_start[c]);
                        if appended {
                            assert(c < tags_before.len());
                        }
                        assert(tags_start[c] == pre.owner_tags@[c]);
                        assert(pre.spec_has_tag_container(o));
                        let cp = pre.spec_tag_container_index(o);
                        assert(pre.owner_tags@[cp].owner == o);
                        assert(cp == c);
                    }
                    if pre.spec_has_tag_container(o) {
                        let cp = pre.spec_tag_container_index(o);
                        assert(pre.owner_tags@[cp].owner == o);
                        if appended {
                            assert(post.owner_tags@[cp] == tags_start[cp]);
                            assert(tags_start[cp] == pre.owner_tags@[cp]);
                        } else {
                            assert(cp != cidx as int);
                            assert(post.owner_tags@[cp] == pre.owner_tags@[cp]);
                        }
                        assert(post.spec_has_tag_container(o));
                    }
                }
            }

            // The new instance's id is fresh, so uniqueness carries over,
            // and every standing modifier still has a live owner.
            assert(post.active_effects@.len() == pre.active_effects@.len() + 1);
            assert(forall|k: int|
                0 <= k < pre.active_effects@.len() ==> post.active_effects@[k]
                    == pre.active_effects@[k]);
            assert(post.active_effects@.last().id == id);
            assert forall|i: int|
                0 <= i < post.modifiers@.len() implies post.spec_has_instance(
                (#[trigger] post.modifiers@[i]).source.0,
            ) by {
                if i < pre.modifiers@.len() {
                    assert(pre.spec_has_instance(pre.modifiers@[i].source.0));
                    let w = pre.spec_instance_index(pre.modifiers@[i].source.0);
                    assert(post.active_effects@[w].id == pre.modifiers@[i].source.0);
                } else {
                    assert(spec_new_modifier_matches(
                        post.modifiers@[i],
                        spec_standing_infos(infos)[i - pre.modifiers@.len()],
                        spec_standing_mags(pre.attributes, infos, instigator)[i
                            - pre.modifiers@.len()],
                        target,
                        id,
                    ));
                    assert(post.active_effects@.last().id == post.modifiers@[i].source.0);
                }
            }

            // Ids stay unique and below the counter; the appended tag
            // container (if any) does not repeat an owner; the new
            // instance's periodic timer starts at one full period.
            assert forall|i: int, j2: int|
                0 <= i < j2 < post.active_effects@.len() implies post.active_effects@[i].id
                != post.active_effects@[j2].id by {
                if j2 == post.active_effects@.len() - 1 {
                    assert(pre.active_effects@[i].id < pre.next_effect_id);
                }
            }
            assert(forall|i: int|
                0 <= i < post.active_effects@.len() ==> (#[trigger] post.active_effects@[i]).id
                    < post.next_effect_id);
            let appended2 = tags_start.len() == tags_before.len() + 1;
            assert(forall|t: int|
                0 <= t < tags_start.len() ==> (#[trigger] post.owner_tags@[t]).owner
                    == tags_start[t].owner);
            assert forall|i: int, j2: int|
                0 <= i < j2 < post.owner_tags@.len() implies post.owner_tags@[i].owner
                != post.owner_tags@[j2].owner by {
                if appended2 {
                    assert(forall|t: int|
                        0 <= t < tags_before.len() ==> (#[trigger] tags_start[t]).owner
                            == tags_before[t].owner);
                    if j2 == tags_start.len() - 1 {
                        assert(tags_start[j2].owner == target);
                        assert(!pre.spec_has_tag_container(target));
                        if pre.owner_tags@[i].owner == target {
                            assert(pre.spec_has_tag_container(target));
                        }
                    } else {
                        assert(pre.owner_tags@[i].owner != pre.owner_tags@[j2].owner);
                    }
                } else {
                    assert(tags_start == tags_before);
                    assert(pre.owner_tags@[i].owner != pre.owner_tags@[j2].owner);
                }
            }
            assert(match post.active_effects@.last().periodic {
                Some(p) => 0 < p.period && 0 < p.time_until_next <= p.period,
                None => true,
            });
            assert(forall|i: int|
                0 <= i < pre.active_effects@.len()
                    ==> (#[trigger] post.active_effects@[i]).periodic
                    == pre.active_effects@[i].periodic);
        }
        id
    }

    /// A world stays well formed when a pass changes entry payloads without
    /// touching ids, keys, owners, sources or periodic-timer soundness.
    proof fn lemma_wf_components(&self, prev: &Self)
        requires
            prev.wf(),
            self.effect_registry.wf(),
            self.ability_registry.wf(),
            self.attributes.wf(),
            self.owner_tags@.len() == prev.owner_tags@.len(),
            forall|t: int|
                0 <= t < prev.owner_tags@.len() ==> (#[trigger] self.owner_tags@[t]).owner
                    == prev.owner_tags@[t].owner,
            self.active_effects@.len() == prev.active_effects@.len(),
            forall|k: int|
                0 <= k < prev.active_effects@.len() ==> (#[trigger] self.active_effects@[k]).id
                    == prev.active_effects@[k].id,
            forall|k: int|
                0 <= k < self.active_effects@.len() ==> match (
                #[trigger] self.active_effects@[k]).periodic {
                    Some(p) => 0 < p.period && 0 < p.time_until_next <= p.period,
                    None => true,
                },
            self.next_effect_id == prev.next_effect_id,
            self.modifiers@.len() == prev.modifiers@.len(),
            forall|i: int|
                0 <= i < prev.modifiers@.len() ==> (#[trigger] self.modifiers@[i]).source
                    == prev.modifiers@[i].source,
            self.abilities@.len() == prev.abilities@.len(),
            forall|k: int|
                0 <= k < prev.abilities@.len() ==> (#[trigger] self.abilities@[k]).id
                    == prev.abilities@[k].id,
            self.next_ability_id == prev.next_ability_id,
        ensures
            self.wf(),
    {
        assert forall|i: int|
            0 <= i < self.modifiers@.len() implies self.spec_has_instance(
            (#[trigger] self.modifiers@[i]).source.0,
        ) by {
            assert(prev.spec_has_instance(prev.modifiers@[i].source.0));
            let w = prev.spec_instance_index(prev.modifiers@[i].source.0);
            assert(self.active_effects@[w].id == self.modifiers@[i].source.0);
        }
    }

    /// One duration pass: every duration timer counted down by the delta,
    /// everything else untouched.
    pub open spec fn spec_durations_transition(pre: Self, post: Self, dt: int) -> bool {
        &&& post.active_effects@.len() == pre.active_effects@.len()
        &&& forall|j: int|
                0 <= j < pre.active_effects@.len() ==> {
                    let prev = #[trigger] pre.active_effects@[j];
                    let now = post.active_effects@[j];
                    now.id == prev.id && now.effect == prev.effect && now.target == prev.target
                        && now.instigator == prev.instigator && now.periodic == prev.periodic
                        && now.granted_tags == prev.granted_tags && now.base_folds
                        == prev.base_folds && now.instant == prev.instant && now.aggregated
                        == prev.aggregated && now.duration == match prev.duration {
                        Some(d) => Some(
                            EffectDuration {
                                remaining: crate::math::spec_sat_sub(
                                    d.remaining as int,
                                    dt,
                                ) as i64,
                                total: d.total,
                            },
                        ),
                        None => None,
                    }
                }
        &&& post.effect_registry == pre.effect_registry
        &&& post.ability_registry == pre.ability_registry
        &&& post.attributes == pre.attributes
        &&& post.owner_tags == pre.owner_tags
        &&& post.modifiers == pre.modifiers
        &&& post.abilities == pre.abilities
        &&& post.next_effect_id == pre.next_effect_id
        &&& post.next_ability_id == pre.next_ability_id
        &&& post.time == pre.time
    }

    /// One periodic pass: every periodic timer advanced with its catch-up
    /// count pinned, executed instances' modifiers re-evaluated, their
    /// AddBase templates folded into base values, everything else untouched.
    pub open spec fn spec_periodic_transition(pre: Self, post: Self, dt: int) -> bool {
        &&& post.active_effects@.len() == pre.active_effects@.len()
        &&& forall|j: int|
                0 <= j < pre.active_effects@.len() ==> {
                    let prev = #[trigger] pre.active_effects@[j];
                    let now = post.active_effects@[j];
                    now.id == prev.id && now.effect == prev.effect && now.target == prev.target
                        && now.instigator == prev.instigator && now.duration == prev.duration
                        && now.granted_tags == prev.granted_tags && now.base_folds
                        == prev.base_folds && now.instant == prev.instant && now.aggregated
                        == prev.aggregated && now.periodic == match prev.periodic {
                        Some(p) => Some(
                            PeriodicEffect {
                                period: p.period,
                                time_until_next: (p.time_until_next - dt
                                    + Self::spec_catch_up_count(Some(p), dt) * p.period) as i64,
                            },
                        ),
                        None => None,
                    }
                }
        &&& post.modifiers@.len() == pre.modifiers@.len()
        &&& forall|mi: int|
                0 <= mi < pre.modifiers@.len() ==> {
                    let prev = #[trigger] pre.modifiers@[mi];
                    let now = post.modifiers@[mi];
                    let w = pre.spec_instance_index(prev.source.0);
                    let e = pre.active_effects@[w];
                    now.source == prev.source && now.calc == prev.calc
                        && now.modifier.target_entity == prev.modifier.target_entity
                        && now.modifier.target_attribute == prev.modifier.target_attribute
                        && now.modifier.operation == prev.modifier.operation
                        && now.modifier.magnitude as int == (if Self::spec_catch_up_count(
                        e.periodic,
                        dt,
                    ) > 0 {
                        spec_evaluate_magnitude(
                            prev.calc,
                            spec_mod_source_value(pre.attributes, prev.calc, e.instigator.0),
                        )
                    } else {
                        prev.modifier.magnitude as int
                    })
                }
        &&& post.attributes.entries@.len() == pre.attributes.entries@.len()
        &&& forall|r: int|
                0 <= r < pre.attributes.entries@.len() ==> {
                    let prev = #[trigger] pre.attributes.entries@[r];
                    let now = post.attributes.entries@[r];
                    now.owner == prev.owner && now.name@ == prev.name@ && now.metadata
                        == prev.metadata && now.data.current_value == prev.data.current_value
                        && now.data.base_value as int == Self::spec_periodic_fold_row(
                        prev.data.base_value as int,
                        pre.active_effects@,
                        pre.attributes,
                        dt,
                        prev.owner,
                        prev.name@,
                    )
                }
        &&& post.effect_registry == pre.effect_registry
        &&& post.ability_registry == pre.ability_registry
        &&& post.owner_tags == pre.owner_tags
        &&& post.abilities == pre.abilities
        &&& post.next_effect_id == pre.next_effect_id
        &&& post.next_ability_id == pre.next_ability_id
        &&& post.time == pre.time
    }

    /// One removal pass: finished instances and their standing modifiers
    /// removed, their granted tags revoked, everything else untouched.
    pub open spec fn spec_removal_transition(pre: Self, post: Self, by_instant: bool) -> bool {
        &&& post.active_effects@ == Self::spec_kept_effects(
                pre.active_effects@,
                by_instant,
            )
        &&& post.modifiers@ == Self::spec_kept_modifiers(
                pre.modifiers@,
                pre.active_effects@,
                by_instant,
            )
        &&& forall|o: u64, n: Seq<char>|
                #[trigger] post.spec_owner_tag_count(o, n) == {
                    let c = pre.spec_owner_tag_count(o, n);
                    let r = Self::spec_revoked_count(pre.active_effects@, o, n, by_instant);
                    if c >= r {
                        c - r
                    } else {
                        0
                    }
                }
        &&& post.effect_registry == pre.effect_registry
        &&& post.ability_registry == pre.ability_registry
        &&& post.attributes == pre.attributes
        &&& post.abilities == pre.abilities
        &&& post.next_effect_id == pre.next_effect_id
        &&& post.next_ability_id == pre.next_ability_id
        &&& post.time == pre.time
        &&& post.owner_tags@.len() == pre.owner_tags@.len()
        &&& forall|t: int|
                0 <= t < pre.owner_tags@.len() ==> (#[trigger] post.owner_tags@[t]).owner
                    == pre.owner_tags@[t].owner
    }

    /// One aggregation pass: every attribute's current value recomputed
    /// from its base and live modifiers, every instance marked aggregated,
    /// everything else untouched.
    pub open spec fn spec_aggregate_pass_transition(pre: Self, post: Self) -> bool {
        &&& post.attributes.entries@.len() == pre.attributes.entries@.len()
        &&& forall|i: int|
                0 <= i < pre.attributes.entries@.len() ==> {
                    let prev = #[trigger] pre.attributes.entries@[i];
                    let now = post.attributes.entries@[i];
                    now.owner == prev.owner && now.name@ == prev.name@ && now.metadata
                        == prev.metadata && now.data.base_value == prev.data.base_value
                        && now.data.current_value as int == crate::aggregation::spec_aggregate(
                        prev.data.base_value as int,
                        Self::spec_mods_for(pre.modifiers@, prev.owner, prev.name@),
                    )
                }
        &&& post.active_effects@.len() == pre.active_effects@.len()
        &&& forall|j: int|
                0 <= j < pre.active_effects@.len() ==> {
                    let prev = #[trigger] pre.active_effects@[j];
                    let now = post.active_effects@[j];
                    now.id == prev.id && now.effect == prev.effect && now.target == prev.target
                        && now.instigator == prev.instigator && now.duration == prev.duration
                        && now.periodic == prev.periodic && now.granted_tags == prev.granted_tags
                        && now.base_folds == prev.base_folds && now.instant == prev.instant
                        && now.aggregated
                }
        &&& post.effect_registry == pre.effect_registry
        &&& post.ability_registry == pre.ability_registry
        &&& post.owner_tags == pre.owner_tags
        &&& post.modifiers == pre.modifiers
        &&& post.abilities == pre.abilities
        &&& post.next_effect_id == pre.next_effect_id
        &&& post.next_ability_id == pre.next_ability_id
        &&& post.time == pre.time
    }

    /// One clamping pass: every attribute row clamped to its bounds,
    /// everything else untouched.
    pub open spec fn spec_clamp_pass_transition(pre: Self, post: Self) -> bool {
        &&& post.attributes.entries@.len() == pre.attributes.entries@.len()
        &&& forall|i: int|
                0 <= i < pre.attributes.entries@.len() ==> post.attributes.entries@[i]
                    == crate::attributes::spec_clamp_entry(
                    #[trigger] pre.attributes.entries@[i],
                )
        &&& post.attributes.spec_all_clamped()
        &&& pre.attributes.spec_all_clamped() ==> post.attributes.entries@ =~= pre.attributes.entries@
        &&& post.effect_registry == pre.effect_registry
        &&& post.ability_registry == pre.ability_registry
        &&& post.owner_tags == pre.owner_tags
        &&& post.active_effects == pre.active_effects
        &&& post.modifiers == pre.modifiers
        &&& post.abilities == pre.abilities
        &&& post.next_effect_id == pre.next_effect_id
        &&& post.next_ability_id == pre.next_ability_id
        &&& post.time == pre.time
    }

    /// One cooldown pass: every running ability cooldown counted down,
    /// expired markers dropped, everything else untouched.
    pub open spec fn spec_cooldowns_transition(pre: Self, post: Self, dt: int) -> bool {
        &&& post.abilities@.len() == pre.abilities@.len()
        &&& forall|j: int|
                0 <= j < pre.abilities@.len() ==> {
                    let prev = #[trigger] pre.abilities@[j];
                    let now = post.abilities@[j];
                    now.id == prev.id && now.spec == prev.spec && now.owner == prev.owner
                        && now.state == prev.state && now.instance == prev.instance
                        && now.committed == prev.committed && now.cooldown == match prev.cooldown {
                        Some(c) => {
                            let ticked = crate::math::spec_sat_sub(c.remaining as int, dt);
                            if ticked <= 0 {
                                Option::<AbilityCooldown>::None
                            } else {
                                Some(AbilityCooldown { remaining: ticked as i64, total: c.total })
                            }
                        },
                        None => None,
                    }
                }
        &&& post.effect_registry == pre.effect_registry
        &&& post.ability_registry == pre.ability_registry
        &&& post.attributes == pre.attributes
        &&& post.owner_tags == pre.owner_tags
        &&& post.active_effects == pre.active_effects
        &&& post.modifiers == pre.modifiers
        &&& post.next_effect_id == pre.next_effect_id
        &&& post.next_ability_id == pre.next_ability_id
        &&& post.time == pre.time
    }

    /// One tag-cancellation pass: every active ability whose owner holds
    /// one of its cancel-on-added tags is deactivated, everything else
    /// untouched.
    pub open spec fn spec_cancel_pass_transition(pre: Self, post: Self) -> bool {
        &&& post.abilities@.len() == pre.abilities@.len()
        &&& forall|t: int|
                0 <= t < pre.abilities@.len() ==> {
                    let prev = #[trigger] pre.abilities@[t];
                    let now = post.abilities@[t];
                    if pre.spec_should_cancel(prev) {
                        Self::spec_entry_deactivated(prev, now)
                    } else {
                        now == prev
                    }
                }
        &&& post.effect_registry == pre.effect_registry
        &&& post.ability_registry == pre.ability_registry
        &&& post.attributes == pre.attributes
        &&& post.owner_tags == pre.owner_tags
        &&& post.active_effects == pre.active_effects
        &&& post.modifiers == pre.modifiers
        &&& post.next_effect_id == pre.next_effect_id
        &&& post.next_ability_id == pre.next_ability_id
        &&& post.time == pre.time
    }

    /// One state pass: every granted ability's displayed state recomputed
    /// by the projection, everything else untouched.
    pub open spec fn spec_states_transition(pre: Self, post: Self) -> bool {
        &&& post.abilities@.len() == pre.abilities@.len()
        &&& forall|t: int|
                0 <= t < pre.abilities@.len() ==> {
                    let prev = #[trigger] pre.abilities@[t];
                    let now = post.abilities@[t];
                    now.id == prev.id && now.spec == prev.spec && now.owner == prev.owner
                        && now.instance == prev.instance && now.cooldown == prev.cooldown
                        && now.committed == prev.committed && now.state == pre.spec_projected_state(prev)
                }
        &&& post.effect_registry == pre.effect_registry
        &&& post.ability_registry == pre.ability_registry
        &&& post.attributes == pre.attributes
        &&& post.owner_tags == pre.owner_tags
        &&& post.active_effects == pre.active_effects
        &&& post.modifiers == pre.modifiers
        &&& post.next_effect_id == pre.next_effect_id
        &&& post.next_ability_id == pre.next_ability_id
        &&& post.time == pre.time
    }

    /// Counts every duration-based effect's remaining time down by the
    /// tick's delta; nothing else moves.
    #[verifier::loop_isolation(false)]
    pub fn update_effect_durations_system(&mut self, dt: i64)
        requires
            old(self).wf(),
        ensures
            final (self).wf(),
            Self::spec_durations_transition(*old(self), *final (self), dt as int),
    {
        let mut j: usize = 0;
        while j < self.active_effects.len()
            invariant
                0 <= j <= old(self).active_effects@.len(),
                self.active_effects@.len() == old(self).active_effects@.len(),
                self.effect_registry == old(self).effect_registry,
                self.ability_registry == old(self).ability_registry,
                self.attributes == old(self).attributes,
                self.owner_tags == old(self).owner_tags,
                self.modifiers == old(self).modifiers,
                self.abilities == old(self).abilities,
                self.next_effect_id == old(self).next_effect_id,
                self.next_ability_id == old(self).next_ability_id,
                self.time == old(self).time,
                forall|t: int|
                    j <= t < old(self).active_effects@.len() ==> self.active_effects@[t] == old(
                        self,
                    ).active_effects@[t],
                forall|t: int|
                    0 <= t < j ==> {
                        let prev = #[trigger] old(self).active_effects@[t];
                        let now = self.active_effects@[t];
                        now.id == prev.id && now.effect == prev.effect && now.target == prev.target
                            && now.instigator == prev.instigator && now.periodic == prev.periodic
                            && now.granted_tags == prev.granted_tags && now.base_folds
                            == prev.base_folds && now.instant == prev.instant && now.aggregated
                            == prev.aggregated && now.duration == match prev.duration {
                            Some(d) => Some(
                                EffectDuration {
                                    remaining: crate::math::spec_sat_sub(
                                        d.remaining as int,
                                        dt as int,
                                    ) as i64,
                                    total: d.total,
                                },
                            ),
                            None => None,
                        }
                    },
            decreases old(self).active_effects@.len() - j,
        {
            let d = self.active_effects[j].duration;
            if let Some(mut dd) = d {
                dd.tick(dt);
                self.active_effects[j].duration = Some(dd);
            }
            j = j + 1;
        }
        proof {
            assert forall|k: int|
                0 <= k < self.active_effects@.len() implies match (
            #[trigger] self.active_effects@[k]).periodic {
                Some(p) => 0 < p.period && 0 < p.time_until_next <= p.period,
                None => true,
            } by {
                assert(old(self).active_effects@[k].id < old(self).next_effect_id);
                assert(self.active_effects@[k].periodic == old(self).active_effects@[k].periodic);
            }
            self.lemma_wf_components(old(self));
        }
    }

    /// Counts every running ability cooldown down by the tick's delta and
    /// drops cooldown markers that have expired.
    #[verifier::loop_isolation(false)]
    pub fn update_ability_cooldowns_system(&mut self, dt: i64)
        requires
            old(self).wf(),
        ensures
            final (self).wf(),
            Self::spec_cooldowns_transition(*old(self), *final (self), dt as int),
    {
        let mut j: usize = 0;
        while j < self.abilities.len()
            invariant
                0 <= j <= old(self).abilities@.len(),
                self.abilities@.len() == old(self).abilities@.len(),
                self.effect_registry == old(self).effect_registry,
                self.ability_registry == old(self).ability_registry,
                self.attributes == old(self).attributes,
                self.owner_tags == old(self).owner_tags,
                self.active_effects == old(self).active_effects,
                self.modifiers == old(self).modifiers,
                self.next_effect_id == old(self).next_effect_id,
                self.next_ability_id == old(self).next_ability_id,
                self.time == old(self).time,
                forall|t: int|
                    j <= t < old(self).abilities@.len() ==> self.abilities@[t] == old(
                        self,
                    ).abilities@[t],
                forall|t: int|
                    0 <= t < j ==> {
                        let prev = #[trigger] old(self).abilities@[t];
                        let now = self.abilities@[t];
                        now.id == prev.id && now.spec == prev.spec && now.owner == prev.owner
                            && now.state == prev.state && now.instance == prev.instance
                            && now.committed == prev.committed && now.cooldown == match prev.cooldown {
                            Some(c) => {
                                let ticked = crate::math::spec_sat_sub(
                                    c.remaining as int,
                                    dt as int,
                                );
                                if ticked <= 0 {
                                    Option::<AbilityCooldown>::None
                                } else {
                                    Some(
                                        AbilityCooldown {
                                            remaining: ticked as i64,
                                            total: c.total,
                                        },
                                    )
                                }
                            },
                            None => None,
                        }
                    },
            decreases old(self).abilities@.len() - j,
        {
            let c = self.abilities[j].cooldown;
            if let Some(mut cc) = c {
                cc.tick(dt);
                if cc.is_expired() {
                    self.abilities[j].cooldown = None;
                } else {
                    self.abilities[j].cooldown = Some(cc);
                }
            }
            j = j + 1;
        }
        proof {
            assert forall|k: int|
                0 <= k < self.active_effects@.len() implies match (
            #[trigger] self.active_effects@[k]).periodic {
                Some(p) => 0 < p.period && 0 < p.time_until_next <= p.period,
                None => true,
            } by {
                assert(old(self).active_effects@[k].id < old(self).next_effect_id);
                assert(self.active_effects@[k].periodic == old(self).active_effects@[k].periodic);
            }
            self.lemma_wf_components(old(self));
        }
    }

    /// Re-clamps every attribute's base and current value to its bounds;
    /// runs once per tick after all mutation for that tick has occurred.
    pub fn clamp_attributes_system(&mut self)
        requires
            old(self).wf(),
        ensures
            final (self).wf(),
            Self::spec_clamp_pass_transition(*old(self), *final (self)),
    {
        self.attributes.clamp_all();
        proof {
            assert forall|k: int|
                0 <= k < self.active_effects@.len() implies match (
            #[trigger] self.active_effects@[k]).periodic {
                Some(p) => 0 < p.period && 0 < p.time_until_next <= p.period,
                None => true,
            } by {
                assert(old(self).active_effects@[k].id < old(self).next_effect_id);
                assert(self.active_effects@[k].periodic == old(self).active_effects@[k].periodic);
            }
            self.lemma_wf_components(old(self));
        }
    }

    /// The standing modifiers aimed at one attribute, in creation order.
    pub open spec fn spec_mods_for(mods: Seq<ModifierEntry>, owner: u64, name: Seq<char>) -> Seq<
        AttributeModifier,
    >
        decreases mods.len(),
    {
        if mods.len() == 0 {
            Seq::empty()
        } else {
            let rest = Self::spec_mods_for(mods.drop_last(), owner, name);
            if mods.last().modifier.target_entity == owner && mods.last().modifier.target_attribute@
                == name {
                rest.push(mods.last().modifier)
            } else {
                rest
            }
        }
    }

    /// The modifier aggregator: recomputes every attribute's current value
    /// from its base value and all live modifiers aimed at it, in priority
    /// order with stable ties, and marks every instance as having taken
    /// part in an aggregation pass.
    #[verifier::loop_isolation(false)]
    pub fn aggregate_attribute_modifiers_system(&mut self)
        requires
            old(self).wf(),
        ensures
            final (self).wf(),
            Self::spec_aggregate_pass_transition(*old(self), *final (self)),
    {
        let mut a: usize = 0;
        while a < self.attributes.entries.len()
            invariant
                0 <= a <= old(self).attributes.entries@.len(),
                self.attributes.entries@.len() == old(self).attributes.entries@.len(),
                self.effect_registry == old(self).effect_registry,
                self.ability_registry == old(self).ability_registry,
                self.owner_tags == old(self).owner_tags,
                self.active_effects == old(self).active_effects,
                self.modifiers == old(self).modifiers,
                self.abilities == old(self).abilities,
                self.next_effect_id == old(self).next_effect_id,
                self.next_ability_id == old(self).next_ability_id,
                self.time == old(self).time,
                forall|t: int|
                    a <= t < old(self).attributes.entries@.len() ==> self.attributes.entries@[t]
                        == old(self).attributes.entries@[t],
                forall|t: int|
                    0 <= t < a ==> {
                        let prev = #[trigger] old(self).attributes.entries@[t];
                        let now = self.attributes.entries@[t];
                        now.owner == prev.owner && now.name@ == prev.name@ && now.metadata
                            == prev.metadata && now.data.base_value == prev.data.base_value
                            && now.data.current_value as int
                            == crate::aggregation::spec_aggregate(
                            prev.data.base_value as int,
                            Self::spec_mods_for(old(self).modifiers@, prev.owner, prev.name@),
                        )
                    },
            decreases old(self).attributes.entries@.len() - a,
        {
            let owner = self.attributes.entries[a].owner;
            let base = self.attributes.entries[a].data.base_value;
            let mut applicable: Vec<AttributeModifier> = Vec::new();
            let mut m: usize = 0;
            while m < self.modifiers.len()
                invariant
                    0 <= m <= old(self).modifiers@.len(),
                    self.modifiers == old(self).modifiers,
                    0 <= a < self.attributes.entries@.len(),
                    self.attributes.entries@[a as int] == old(self).attributes.entries@[a as int],
                    owner == self.attributes.entries@[a as int].owner,
                    applicable@.len() == Self::spec_mods_for(
                        old(self).modifiers@.take(m as int),
                        owner,
                        self.attributes.entries@[a as int].name@,
                    ).len(),
                    forall|t: int|
                        0 <= t < applicable@.len() ==> {
                            let expected = Self::spec_mods_for(
                                old(self).modifiers@.take(m as int),
                                owner,
                                self.attributes.entries@[a as int].name@,
                            )[t];
                            (#[trigger] applicable@[t]).operation == expected.operation
                                && applicable@[t].magnitude == expected.magnitude
                        },
                decreases old(self).modifiers@.len() - m,
            {
                proof {
                    let mods = old(self).modifiers@;
                    assert(mods.take(m + 1).drop_last() =~= mods.take(m as int));
                    assert(mods.take(m + 1).last() == mods[m as int]);
                }
                if self.modifiers[m].modifier.target_entity == owner && crate::tags::str_eq(
                    self.modifiers[m].modifier.target_attribute.as_str(),
                    self.attributes.entries[a].name.as_str(),
                ) {
                    applicable.push(self.modifiers[m].modifier.clone());
                }
                m = m + 1;
            }
            proof {
                assert(old(self).modifiers@.take(old(self).modifiers@.len() as int) =~= old(
                    self,
                ).modifiers@);
            }
            let aggregated = crate::aggregation::aggregate_modifiers(base, &applicable);
            proof {
                crate::aggregation::lemma_aggregate_pointwise(
                    base as int,
                    applicable@,
                    Self::spec_mods_for(
                        old(self).modifiers@,
                        owner,
                        self.attributes.entries@[a as int].name@,
                    ),
                );
            }
            if aggregated != self.attributes.entries[a].data.current_value {
                self.attributes.entries[a].data.current_value = aggregated;
            }
            a = a + 1;
        }
        let ghost final_attrs_snapshot = self.attributes;
        let mut j: usize = 0;
        while j < self.active_effects.len()
            invariant
                0 <= j <= old(self).active_effects@.len(),
                self.active_effects@.len() == old(self).active_effects@.len(),
                self.effect_registry == old(self).effect_registry,
                self.ability_registry == old(self).ability_registry,
                self.owner_tags == old(self).owner_tags,
                self.modifiers == old(self).modifiers,
                self.abilities == old(self).abilities,
                self.next_effect_id == old(self).next_effect_id,
                self.next_ability_id == old(self).next_ability_id,
                self.time == old(self).time,
                self.attributes == final_attrs_snapshot,
                forall|t: int|
                    j <= t < old(self).active_effects@.len() ==> self.active_effects@[t] == old(
                        self,
                    ).active_effects@[t],
                forall|t: int|
                    0 <= t < j ==> {
                        let prev = #[trigger] old(self).active_effects@[t];
                        let now = self.active_effects@[t];
                        now.id == prev.id && now.effect == prev.effect && now.target == prev.target
                            && now.instigator == prev.instigator && now.duration == prev.duration
                            && now.periodic == prev.periodic && now.granted_tags
                            == prev.granted_tags && now.base_folds == prev.base_folds
                            && now.instant == prev.instant && now.aggregated
                    },
            decreases old(self).active_effects@.len() - j,
        {
            self.active_effects[j].aggregated = true;
            j = j + 1;
        }
        proof {
            assert(self.attributes.wf()) by {
                assert(forall|t: int|
                    0 <= t < self.attributes.entries@.len() ==> (
                    #[trigger] self.attributes.entries@[t]).owner == old(
                        self,
                    ).attributes.entries@[t].owner && self.attributes.entries@[t].name@ == old(
                        self,
                    ).attributes.entries@[t].name@);
            }
            assert forall|k: int|
                0 <= k < self.active_effects@.len() implies match (
            #[trigger] self.active_effects@[k]).periodic {
                Some(p) => 0 < p.period && 0 < p.time_until_next <= p.period,
                None => true,
            } by {
                assert(old(self).active_effects@[k].id < old(self).next_effect_id);
                assert(self.active_effects@[k].periodic == old(self).active_effects@[k].periodic);
            }
            self.lemma_wf_components(old(self));
        }
    }

    /// Whether a removal pass considers the instance finished: spent
    /// instant instances for the instant pass, expired durations for the
    /// expiry pass.
    pub open spec fn spec_effect_finished(e: ActiveEffectEntry, by_instant: bool) -> bool {
        if by_instant {
            e.instant && e.aggregated
        } else {
            match e.duration {
                Some(d) => d.remaining <= 0,
                None => false,
            }
        }
    }

    /// The instances a removal pass keeps, in order.
    pub open spec fn spec_kept_effects(s: Seq<ActiveEffectEntry>, by_instant: bool) -> Seq<
        ActiveEffectEntry,
    >
        decreases s.len(),
    {
        if s.len() == 0 {
            Seq::empty()
        } else {
            let rest = Self::spec_kept_effects(s.drop_last(), by_instant);
            if Self::spec_effect_finished(s.last(), by_instant) {
                rest
            } else {
                rest.push(s.last())
            }
        }
    }

    /// The standing modifiers a removal pass keeps: those whose owning
    /// instance survives.
    pub open spec fn spec_kept_modifiers(
        mods: Seq<ModifierEntry>,
        entries: Seq<ActiveEffectEntry>,
        by_instant: bool,
    ) -> Seq<ModifierEntry>
        decreases mods.len(),
    {
        if mods.len() == 0 {
            Seq::empty()
        } else {
            let rest = Self::spec_kept_modifiers(mods.drop_last(), entries, by_instant);
            if Self::spec_source_survives(mods.last(), entries, by_instant) {
                rest.push(mods.last())
            } else {
                rest
            }
        }
    }

    /// Whether the modifier's owning instance survives the removal pass.
    pub open spec fn spec_source_survives(
        m: ModifierEntry,
        entries: Seq<ActiveEffectEntry>,
        by_instant: bool,
    ) -> bool {
        exists|j: int|
            0 <= j < entries.len() && entries[j].id == m.source.0 && !Self::spec_effect_finished(
                entries[j],
                by_instant,
            )
    }

    /// How many grants of the name the pass revokes from the owner: the
    /// occurrences of the name among the granted tags of every finished
    /// instance targeting the owner.
    pub open spec fn spec_revoked_count(
        entries: Seq<ActiveEffectEntry>,
        owner: u64,
        name: Seq<char>,
        by_instant: bool,
    ) -> int
        decreases entries.len(),
    {
        if entries.len() == 0 {
            0
        } else {
            let rest = Self::spec_revoked_count(entries.drop_last(), owner, name, by_instant);
            if Self::spec_effect_finished(entries.last(), by_instant) && entries.last().target.0
                == owner {
                rest + tag_occurrences(entries.last().granted_tags.tags@, name)
            } else {
                rest
            }
        }
    }

    /// Counts of revoked grants never go negative.
    proof fn lemma_revoked_nonneg(
        entries: Seq<ActiveEffectEntry>,
        owner: u64,
        name: Seq<char>,
        by_instant: bool,
    )
        ensures
            Self::spec_revoked_count(entries, owner, name, by_instant) >= 0,
        decreases entries.len(),
    {
        if entries.len() > 0 {
            Self::lemma_revoked_nonneg(entries.drop_last(), owner, name, by_instant);
            crate::tags::lemma_tag_occurrences_nonneg(entries.last().granted_tags.tags@, name);
        }
    }

    /// Every kept instance is one of the original, unfinished instances.
    proof fn lemma_kept_membership(s: Seq<ActiveEffectEntry>, by_instant: bool)
        ensures
            forall|a: int|
                0 <= a < Self::spec_kept_effects(s, by_instant).len() ==> exists|t: int|
                    0 <= t < s.len() && #[trigger] Self::spec_kept_effects(s, by_instant)[a]
                        == s[t] && !Self::spec_effect_finished(s[t], by_instant),
        decreases s.len(),
    {
        if s.len() > 0 {
            Self::lemma_kept_membership(s.drop_last(), by_instant);
            assert forall|a: int|
                0 <= a < Self::spec_kept_effects(s, by_instant).len() implies exists|t: int|
                0 <= t < s.len() && #[trigger] Self::spec_kept_effects(s, by_instant)[a] == s[t]
                    && !Self::spec_effect_finished(s[t], by_instant) by {
                let kept = Self::spec_kept_effects(s, by_instant);
                let rest = Self::spec_kept_effects(s.drop_last(), by_instant);
                if a < rest.len() {
                    assert(rest[a] == kept[a]);
                    let t = choose|t: int|
                        0 <= t < s.drop_last().len() && #[trigger] rest[a] == s.drop_last()[t]
                            && !Self::spec_effect_finished(s.drop_last()[t], by_instant);
                    assert(s[t] == s.drop_last()[t]);
                } else {
                    assert(kept[a] == s.last());
                    assert(s[s.len() - 1] == s.last());
                }
            }
        }
    }

    /// An id survives the pass exactly when some unfinished original
    /// instance carries it.
    proof fn lemma_kept_contains_id(s: Seq<ActiveEffectEntry>, by_instant: bool, id: u64)
        ensures
            (exists|a: int|
                0 <= a < Self::spec_kept_effects(s, by_instant).len()
                    && (#[trigger] Self::spec_kept_effects(s, by_instant)[a]).id == id) <==> (
            exists|j: int|
                0 <= j < s.len() && (#[trigger] s[j]).id == id && !Self::spec_effect_finished(
                    s[j],
                    by_instant,
                )),
        decreases s.len(),
    {
        if s.len() > 0 {
            Self::lemma_kept_contains_id(s.drop_last(), by_instant, id);
            let kept = Self::spec_kept_effects(s, by_instant);
            let rest = Self::spec_kept_effects(s.drop_last(), by_instant);
            if exists|a: int| 0 <= a < kept.len() && (#[trigger] kept[a]).id == id {
                let a = choose|a: int| 0 <= a < kept.len() && (#[trigger] kept[a]).id == id;
                if a < rest.len() {
                    assert(rest[a] == kept[a]);
                    let j = choose|j: int|
                        0 <= j < s.drop_last().len() && (#[trigger] s.drop_last()[j]).id == id
                            && !Self::spec_effect_finished(s.drop_last()[j], by_instant);
                    assert(s[j] == s.drop_last()[j]);
                } else {
                    assert(kept[a] == s.last());
                    assert((s[s.len() - 1]).id == id && !Self::spec_effect_finished(
                        s[s.len() - 1],
                        by_instant,
                    ));
                }
            }
            if exists|j: int|
                0 <= j < s.len() && (#[trigger] s[j]).id == id && !Self::spec_effect_finished(
                    s[j],
                    by_instant,
                ) {
                let j = choose|j: int|
                    0 <= j < s.len() && (#[trigger] s[j]).id == id && !Self::spec_effect_finished(
                        s[j],
                        by_instant,
                    );
                if j < s.len() - 1 {
                    assert(s.drop_last()[j] == s[j]);
                    let a = choose|a: int|
                        0 <= a < rest.len() && (#[trigger] rest[a]).id == id;
                    assert(kept[a] == rest[a]);
                } else {
                    assert(kept[kept.len() - 1] == s.last());
                }
            }
        }
    }

    /// Removes every instance the pass considers finished, destroys the
    /// standing modifiers those instances own, and revokes their granted
    /// tags from their targets (one grant each, never below zero).
    #[verifier::loop_isolation(false)]
    fn remove_finished_effects(&mut self, by_instant: bool)
        requires
            old(self).wf(),
        ensures
            final (self).wf(),
            Self::spec_removal_transition(*old(self), *final (self), by_instant),
    {
        let ghost orig = old(self).active_effects@;
        let mut drained: Vec<ActiveEffectEntry> = Vec::new();
        core::mem::swap(&mut self.active_effects, &mut drained);
        let ghost mut done: int = 0;
        proof {
            assert(orig.take(0) =~= Seq::<ActiveEffectEntry>::empty());
            assert forall|o: u64, n: Seq<char>| true implies #[trigger] old(self).spec_owner_tag_count(
                o,
                n,
            ) >= 0 by {
                if old(self).spec_has_tag_container(o) {
                    crate::tags::lemma_tag_occurrences_nonneg(
                        old(self).owner_tags@[old(self).spec_tag_container_index(o)].tags.tags@,
                        n,
                    );
                }
            }
        }
        while drained.len() > 0
            invariant
                0 <= done <= orig.len(),
                drained@ =~= orig.skip(done),
                self.active_effects@ == Self::spec_kept_effects(orig.take(done), by_instant),
                self.effect_registry == old(self).effect_registry,
                self.ability_registry == old(self).ability_registry,
                self.attributes == old(self).attributes,
                self.modifiers == old(self).modifiers,
                self.abilities == old(self).abilities,
                self.next_effect_id == old(self).next_effect_id,
                self.next_ability_id == old(self).next_ability_id,
                self.time == old(self).time,
                self.owner_tags@.len() == old(self).owner_tags@.len(),
                forall|t: int|
                    0 <= t < old(self).owner_tags@.len() ==> (#[trigger] self.owner_tags@[t]).owner
                        == old(self).owner_tags@[t].owner,
                forall|o: u64, n: Seq<char>|
                    #[trigger] self.spec_owner_tag_count(o, n) == {
                        let c = old(self).spec_owner_tag_count(o, n);
                        let r = Self::spec_revoked_count(orig.take(done), o, n, by_instant);
                        if c >= r {
                            c - r
                        } else {
                            0
                        }
                    },
            decreases drained@.len(),
        {
            proof {
                assert(drained@[0] == orig[done]);
                assert(orig.take(done + 1).drop_last() =~= orig.take(done));
                assert(orig.take(done + 1).last() == orig[done]);
            }
            let e = drained.remove(0);
            let finished = if by_instant {
                e.instant && e.aggregated
            } else {
                match &e.duration {
                    Some(d) => d.is_expired(),
                    None => false,
                }
            };
            if finished {
                let ghost before_revoke = *self;
                match self.find_tag_container(e.target.0) {
                    Some(ci) => {
                        proof {
                            assert(forall|a: int, b: int|
                                0 <= a < b < self.owner_tags@.len() ==> self.owner_tags@[a].owner
                                    != self.owner_tags@[b].owner) by {
                                assert(forall|t: int|
                                    0 <= t < self.owner_tags@.len() ==> (
                                    #[trigger] self.owner_tags@[t]).owner == old(
                                        self,
                                    ).owner_tags@[t].owner);
                            }
                            self.lemma_container_at(ci as int);
                        }
                        let mut g: usize = 0;
                        proof {
                            assert(e.granted_tags.tags@.take(0) =~= Seq::<GameplayTag>::empty());
                            assert forall|n: Seq<char>| true implies #[trigger] self.owner_tags@[ci as int].tags.spec_tag_count(
                                n,
                            ) >= 0 by {
                                crate::tags::lemma_tag_occurrences_nonneg(
                                    self.owner_tags@[ci as int].tags.tags@,
                                    n,
                                );
                            }
                        }
                        while g < e.granted_tags.tags.len()
                            invariant
                                0 <= g <= e.granted_tags.tags@.len(),
                                0 <= ci < before_revoke.owner_tags@.len(),
                                self.owner_tags@.len() == before_revoke.owner_tags@.len(),
                                forall|t: int|
                                    0 <= t < before_revoke.owner_tags@.len() && t != ci
                                        ==> self.owner_tags@[t] == before_revoke.owner_tags@[t],
                                self.owner_tags@[ci as int].owner
                                    == before_revoke.owner_tags@[ci as int].owner,
                                before_revoke.owner_tags@[ci as int].owner == e.target.0,
                                self.owner_tags@.len() == old(self).owner_tags@.len(),
                                forall|t: int|
                                    0 <= t < old(self).owner_tags@.len() ==> (
                                    #[trigger] self.owner_tags@[t]).owner == old(
                                        self,
                                    ).owner_tags@[t].owner,
                                forall|o2: u64, n2: Seq<char>|
                                    #[trigger] before_revoke.spec_owner_tag_count(o2, n2) == {
                                        let c = old(self).spec_owner_tag_count(o2, n2);
                                        let r = Self::spec_revoked_count(
                                            orig.take(done),
                                            o2,
                                            n2,
                                            by_instant,
                                        );
                                        if c >= r {
                                            c - r
                                        } else {
                                            0
                                        }
                                    },
                                self.effect_registry == before_revoke.effect_registry,
                                self.ability_registry == before_revoke.ability_registry,
                                self.attributes == before_revoke.attributes,
                                self.active_effects == before_revoke.active_effects,
                                self.modifiers == before_revoke.modifiers,
                                self.abilities == before_revoke.abilities,
                                self.next_effect_id == before_revoke.next_effect_id,
                                self.next_ability_id == before_revoke.next_ability_id,
                                self.time == before_revoke.time,
                                forall|n: Seq<char>|
                                    #[trigger] self.owner_tags@[ci as int].tags.spec_tag_count(n)
                                        == {
                                        let c = before_revoke.owner_tags@[ci as int].tags.spec_tag_count(
                                            n,
                                        );
                                        let r = tag_occurrences(
                                            e.granted_tags.tags@.take(g as int),
                                            n,
                                        );
                                        if c >= r {
                                            c - r
                                        } else {
                                            0
                                        }
                                    },
                            decreases e.granted_tags.tags@.len() - g,
                        {
                            proof {
                                let gt = e.granted_tags.tags@;
                                assert(gt.take(g + 1).drop_last() =~= gt.take(g as int));
                                assert(gt.take(g + 1).last() == gt[g as int]);
                                crate::tags::lemma_tag_occurrences_nonneg(
                                    gt.take(g as int),
                                    gt[g as int]@,
                                );
                            }
                            self.owner_tags[ci].tags.remove_tag(&e.granted_tags.tags[g]);
                            g = g + 1;
                        }
                        proof {
                            let gt = e.granted_tags.tags@;
                            assert(gt.take(gt.len() as int) =~= gt);
                            self.lemma_counts_one_container(&before_revoke, ci as int);
                            assert(forall|t: int|
                                0 <= t < old(self).owner_tags@.len() ==> (
                                #[trigger] self.owner_tags@[t]).owner == old(
                                    self,
                                ).owner_tags@[t].owner);
                            assert forall|o: u64, n: Seq<char>| true implies #[trigger] self.spec_owner_tag_count(
                                o,
                                n,
                            ) == {
                                let c = old(self).spec_owner_tag_count(o, n);
                                let r0 = Self::spec_revoked_count(
                                    orig.take(done),
                                    o,
                                    n,
                                    by_instant,
                                );
                                let occ = if o == e.target.0 {
                                    tag_occurrences(e.granted_tags.tags@, n)
                                } else {
                                    0
                                };
                                if c >= r0 + occ {
                                    c - (r0 + occ)
                                } else {
                                    0
                                }
                            } by {
                                Self::lemma_revoked_nonneg(orig.take(done), o, n, by_instant);
                                crate::tags::lemma_tag_occurrences_nonneg(
                                    e.granted_tags.tags@,
                                    n,
                                );
                                if o == e.target.0 {
                                    assert(self.spec_owner_tag_count(o, n)
                                        == self.owner_tags@[ci as int].tags.spec_tag_count(n));
                                    assert(before_revoke.spec_owner_tag_count(o, n)
                                        == before_revoke.owner_tags@[ci as int].tags.spec_tag_count(
                                        n,
                                    ));
                                } else {
                                    assert(self.spec_owner_tag_count(o, n)
                                        == before_revoke.spec_owner_tag_count(o, n));
                                }
                            }
                        }
                    },
                    None => {
                        proof {
                            assert forall|o: u64, n: Seq<char>| true implies #[trigger] self.spec_owner_tag_count(
                                o,
                                n,
                            ) == {
                                let c = old(self).spec_owner_tag_count(o, n);
                                let r0 = Self::spec_revoked_count(
                                    orig.take(done),
                                    o,
                                    n,
                                    by_instant,
                                );
                                let occ = if o == e.target.0 {
                                    tag_occurrences(e.granted_tags.tags@, n)
                                } else {
                                    0
                                };
                                if c >= r0 + occ {
                                    c - (r0 + occ)
                                } else {
                                    0
                                }
                            } by {
                                Self::lemma_revoked_nonneg(orig.take(done), o, n, by_instant);
                                crate::tags::lemma_tag_occurrences_nonneg(
                                    e.granted_tags.tags@,
                                    n,
                                );
                                if o == e.target.0 {
                                    assert(!self.spec_has_tag_container(e.target.0));
                                    assert(self.spec_owner_tag_count(o, n) == 0);
                                }
                            }
                        }
                    },
                }
            } else {
                let ghost pre_push = *self;
                self.active_effects.push(e);
                proof {
                    assert(forall|a: int, b: int|
                        0 <= a < b < pre_push.owner_tags@.len() ==> pre_push.owner_tags@[a].owner
                            != pre_push.owner_tags@[b].owner) by {
                        assert(forall|t: int|
                            0 <= t < pre_push.owner_tags@.len() ==> (
                            #[trigger] pre_push.owner_tags@[t]).owner == old(
                                self,
                            ).owner_tags@[t].owner);
                    }
                    self.lemma_counts_same_containers(&pre_push);
                }
            }
            proof {
                let ghost dprev = done;
                done = done + 1;
                assert(orig.take(done).drop_last() =~= orig.take(dprev));
                assert(orig.take(done).last() == orig[dprev]);
                assert(finished == Self::spec_effect_finished(orig[dprev], by_instant));
                assert forall|o: u64, n: Seq<char>| true implies #[trigger] Self::spec_revoked_count(
                    orig.take(done),
                    o,
                    n,
                    by_instant,
                ) == Self::spec_revoked_count(orig.take(dprev), o, n, by_instant) + (
                if Self::spec_effect_finished(orig[dprev], by_instant) && orig[dprev].target.0
                    == o {
                    tag_occurrences(orig[dprev].granted_tags.tags@, n)
                } else {
                    0
                }) by {
                    assert(orig.take(done).drop_last() =~= orig.take(dprev));
                }
            }
        }
        proof {
            assert(orig.take(orig.len() as int) =~= orig);
        }

        // Destroy the standing modifiers of the removed instances.
        let ghost after_entries = *self;
        let mut mdrained: Vec<ModifierEntry> = Vec::new();
        core::mem::swap(&mut self.modifiers, &mut mdrained);
        let ghost morig = old(self).modifiers@;
        let ghost mut mdone: int = 0;
        while mdrained.len() > 0
            invariant
                0 <= mdone <= morig.len(),
                mdrained@ =~= morig.skip(mdone),
                self.modifiers@ == Self::spec_kept_modifiers(morig.take(mdone), orig, by_instant),
                self.active_effects == after_entries.active_effects,
                self.active_effects@ == Self::spec_kept_effects(orig, by_instant),
                self.effect_registry == after_entries.effect_registry,
                self.ability_registry == after_entries.ability_registry,
                self.attributes == after_entries.attributes,
                self.owner_tags == after_entries.owner_tags,
                self.abilities == after_entries.abilities,
                self.next_effect_id == after_entries.next_effect_id,
                self.next_ability_id == after_entries.next_ability_id,
                self.time == after_entries.time,
            decreases mdrained@.len(),
        {
            proof {
                assert(mdrained@[0] == morig[mdone]);
                assert(morig.take(mdone + 1).drop_last() =~= morig.take(mdone));
                assert(morig.take(mdone + 1).last() == morig[mdone]);
            }
            let m = mdrained.remove(0);
            let keep = self.has_live_instance(m.source.0);
            proof {
                Self::lemma_kept_contains_id(orig, by_instant, m.source.0);
            }
            if keep {
                self.modifiers.push(m);
            }
            proof {
                mdone = mdone + 1;
            }
        }
        proof {
            assert(morig.take(morig.len() as int) =~= morig);
            assert(forall|a: int, b: int|
                0 <= a < b < after_entries.owner_tags@.len() ==> after_entries.owner_tags@[a].owner
                    != after_entries.owner_tags@[b].owner) by {
                assert(forall|t: int|
                    0 <= t < after_entries.owner_tags@.len() ==> (
                    #[trigger] after_entries.owner_tags@[t]).owner == old(
                        self,
                    ).owner_tags@[t].owner);
            }
            self.lemma_counts_same_containers(&after_entries);
            // Well-formedness of the shrunken world.
            Self::lemma_kept_membership(orig, by_instant);
            let kept = Self::spec_kept_effects(orig, by_instant);
            assert forall|i: int, j: int| 0 <= i < j < kept.len() implies kept[i].id
                != kept[j].id by {
                Self::lemma_kept_ids_distinct(orig, by_instant);
            }
            assert forall|i: int|
                0 <= i < kept.len() implies (#[trigger] kept[i]).id < self.next_effect_id
                    && match kept[i].periodic {
                    Some(p) => 0 < p.period && 0 < p.time_until_next <= p.period,
                    None => true,
                } by {
                let t = choose|t: int|
                    0 <= t < orig.len() && #[trigger] kept[i] == orig[t]
                        && !Self::spec_effect_finished(orig[t], by_instant);
                assert(old(self).active_effects@[t].id < old(self).next_effect_id);
            }
            assert forall|i: int|
                0 <= i < self.modifiers@.len() implies self.spec_has_instance(
                (#[trigger] self.modifiers@[i]).source.0,
            ) by {
                Self::lemma_kept_modifiers_sources(morig, orig, by_instant);
                let w = choose|w: int|
                    0 <= w < kept.len() && (#[trigger] kept[w]).id == self.modifiers@[i].source.0;
                assert(self.active_effects@[w].id == self.modifiers@[i].source.0);
            }
        }
    }

    /// Every kept modifier's owner id is carried by some kept instance.
    proof fn lemma_kept_modifiers_sources(
        mods: Seq<ModifierEntry>,
        entries: Seq<ActiveEffectEntry>,
        by_instant: bool,
    )
        ensures
            forall|i: int|
                0 <= i < Self::spec_kept_modifiers(mods, entries, by_instant).len() ==> exists|w: int|
                    0 <= w < Self::spec_kept_effects(entries, by_instant).len()
                        && (#[trigger] Self::spec_kept_effects(entries, by_instant)[w]).id == (
                    #[trigger] Self::spec_kept_modifiers(mods, entries, by_instant)[i]).source.0,
        decreases mods.len(),
    {
        if mods.len() > 0 {
            Self::lemma_kept_modifiers_sources(mods.drop_last(), entries, by_instant);
            let kept = Self::spec_kept_modifiers(mods, entries, by_instant);
            let rest = Self::spec_kept_modifiers(mods.drop_last(), entries, by_instant);
            assert forall|i: int|
                0 <= i < kept.len() implies exists|w: int|
                0 <= w < Self::spec_kept_effects(entries, by_instant).len()
                    && (#[trigger] Self::spec_kept_effects(entries, by_instant)[w]).id == (
                #[trigger] kept[i]).source.0 by {
                if i < rest.len() {
                    assert(kept[i] == rest[i]);
                } else {
                    assert(kept[i] == mods.last());
                    Self::lemma_kept_contains_id(entries, by_instant, mods.last().source.0);
                }
            }
        }
    }

    /// Distinct ids stay distinct after filtering.
    proof fn lemma_kept_ids_distinct(entries: Seq<ActiveEffectEntry>, by_instant: bool)
        requires
            forall|i: int, j: int|
                0 <= i < j < entries.len() ==> entries[i].id != entries[j].id,
        ensures
            forall|i: int, j: int|
                0 <= i < j < Self::spec_kept_effects(entries, by_instant).len()
                    ==> Self::spec_kept_effects(entries, by_instant)[i].id
                    != Self::spec_kept_effects(entries, by_instant)[j].id,
        decreases entries.len(),
    {
        if entries.len() > 0 {
            Self::lemma_kept_ids_distinct(entries.drop_last(), by_instant);
            Self::lemma_kept_membership(entries.drop_last(), by_instant);
            let kept = Self::spec_kept_effects(entries, by_instant);
            let rest = Self::spec_kept_effects(entries.drop_last(), by_instant);
            assert forall|i: int, j: int| 0 <= i < j < kept.len() implies kept[i].id
                != kept[j].id by {
                if j < rest.len() {
                    assert(kept[i] == rest[i] && kept[j] == rest[j]);
                } else if j == rest.len() && kept.len() > rest.len() {
                    assert(kept[j] == entries.last());
                    assert(kept[i] == rest[i]);
                    let t = choose|t: int|
                        0 <= t < entries.drop_last().len() && #[trigger] rest[i]
                            == entries.drop_last()[t] && !Self::spec_effect_finished(
                            entries.drop_last()[t],
                            by_instant,
                        );
                    assert(entries[t] == entries.drop_last()[t]);
                    assert(entries[t].id != entries[entries.len() - 1].id);
                }
            }
        }
    }

    /// The container at a valid index is the owner's container.
    proof fn lemma_container_at(&self, ci: int)
        requires
            forall|i: int, j: int|
                0 <= i < j < self.owner_tags@.len() ==> self.owner_tags@[i].owner
                    != self.owner_tags@[j].owner,
            0 <= ci < self.owner_tags@.len(),
        ensures
            self.spec_has_tag_container(self.owner_tags@[ci].owner),
            self.spec_tag_container_index(self.owner_tags@[ci].owner) == ci,
    {
        let o = self.owner_tags@[ci].owner;
        assert(self.spec_has_tag_container(o));
        let c = self.spec_tag_container_index(o);
        assert(self.owner_tags@[c].owner == o);
        if c != ci {
            assert(false);
        }
    }

    /// When only one container's contents changed, the counts of its owner
    /// follow that container and every other owner's counts are unchanged.
    proof fn lemma_counts_one_container(&self, prev: &Self, ci: int)
        requires
            0 <= ci < prev.owner_tags@.len(),
            self.owner_tags@.len() == prev.owner_tags@.len(),
            forall|t: int|
                0 <= t < prev.owner_tags@.len() && t != ci ==> self.owner_tags@[t]
                    == prev.owner_tags@[t],
            self.owner_tags@[ci].owner == prev.owner_tags@[ci].owner,
            forall|i: int, j: int|
                0 <= i < j < prev.owner_tags@.len() ==> prev.owner_tags@[i].owner
                    != prev.owner_tags@[j].owner,
        ensures
            forall|n: Seq<char>|
                #[trigger] self.spec_owner_tag_count(prev.owner_tags@[ci].owner, n)
                    == self.owner_tags@[ci].tags.spec_tag_count(n),
            forall|n: Seq<char>|
                #[trigger] prev.spec_owner_tag_count(prev.owner_tags@[ci].owner, n)
                    == prev.owner_tags@[ci].tags.spec_tag_count(n),
            forall|o: u64, n: Seq<char>|
                o != prev.owner_tags@[ci].owner ==> #[trigger] self.spec_owner_tag_count(o, n)
                    == prev.spec_owner_tag_count(o, n),
    {
        let owner = prev.owner_tags@[ci].owner;
        assert(forall|t: int|
            0 <= t < self.owner_tags@.len() ==> (#[trigger] self.owner_tags@[t]).owner
                == prev.owner_tags@[t].owner);
        assert forall|n: Seq<char>| true implies #[trigger] self.spec_owner_tag_count(owner, n)
            == self.owner_tags@[ci].tags.spec_tag_count(n) by {
            assert(self.spec_has_tag_container(owner));
            let c = self.spec_tag_container_index(owner);
            assert(self.owner_tags@[c].owner == owner);
            if c != ci {
                assert(prev.owner_tags@[c].owner == owner);
                assert(false);
            }
        }
        assert forall|n: Seq<char>| true implies #[trigger] prev.spec_owner_tag_count(owner, n)
            == prev.owner_tags@[ci].tags.spec_tag_count(n) by {
            assert(prev.spec_has_tag_container(owner));
            let c = prev.spec_tag_container_index(owner);
            if c != ci {
                assert(false);
            }
        }
        assert forall|o: u64, n: Seq<char>| o != owner implies #[trigger] self.spec_owner_tag_count(
            o,
            n,
        ) == prev.spec_owner_tag_count(o, n) by {
            if self.spec_has_tag_container(o) {
                let c = self.spec_tag_container_index(o);
                assert(self.owner_tags@[c].owner == o);
                assert(c != ci);
                assert(prev.owner_tags@[c] == self.owner_tags@[c]);
                assert(prev.spec_has_tag_container(o));
                let cp = prev.spec_tag_container_index(o);
                assert(prev.owner_tags@[cp].owner == o);
                if cp != c {
                    assert(false);
                }
            } else {
                if prev.spec_has_tag_container(o) {
                    let cp = prev.spec_tag_container_index(o);
                    assert(prev.owner_tags@[cp].owner == o);
                    assert(cp != ci);
                    assert(self.owner_tags@[cp] == prev.owner_tags@[cp]);
                    assert(self.spec_has_tag_container(o));
                }
            }
        }
    }

    /// Two worlds with the same containers count every tag the same.
    proof fn lemma_counts_same_containers(&self, prev: &Self)
        requires
            self.owner_tags@.len() == prev.owner_tags@.len(),
            forall|t: int|
                0 <= t < prev.owner_tags@.len() ==> self.owner_tags@[t] == prev.owner_tags@[t],
            forall|i: int, j: int|
                0 <= i < j < prev.owner_tags@.len() ==> prev.owner_tags@[i].owner
                    != prev.owner_tags@[j].owner,
        ensures
            forall|o: u64, n: Seq<char>|
                #[trigger] self.spec_owner_tag_count(o, n) == prev.spec_owner_tag_count(o, n),
    {
        assert forall|o: u64, n: Seq<char>| true implies #[trigger] self.spec_owner_tag_count(o, n)
            == prev.spec_owner_tag_count(o, n) by {
            if self.spec_has_tag_container(o) {
                let c1 = self.spec_tag_container_index(o);
                assert(self.owner_tags@[c1].owner == o);
                assert(prev.owner_tags@[c1].owner == o);
                assert(prev.spec_has_tag_container(o));
                let c2 = prev.spec_tag_container_index(o);
                assert(prev.owner_tags@[c2].owner == o);
                if c1 != c2 {
                    assert(false);
                }
                assert(self.owner_tags@[c1].tags == prev.owner_tags@[c2].tags);
            } else {
                if prev.spec_has_tag_container(o) {
                    let c2 = prev.spec_tag_container_index(o);
                    assert(self.owner_tags@[c2].owner == o);
                    assert(self.spec_has_tag_container(o));
                }
            }
        }
    }

    /// Whether a live effect instance carries the id; the executable twin
    /// of `spec_has_instance`.
    pub fn has_live_instance(&self, id: u64) -> (r: bool)
        ensures
            r == self.spec_has_instance(id),
    {
        let mut j: usize = 0;
        while j < self.active_effects.len()
            invariant
                0 <= j <= self.active_effects@.len(),
                forall|t: int| 0 <= t < j ==> self.active_effects@[t].id != id,
            decreases self.active_effects@.len() - j,
        {
            if self.active_effects[j].id == id {
                return true;
            }
            j = j + 1;
        }
        false
    }

    /// Removes every instance whose duration has run out, together with
    /// its standing modifiers, and revokes its granted tags.
    pub fn remove_expired_effects_system(&mut self)
        requires
            old(self).wf(),
        ensures
            final (self).wf(),
            Self::spec_removal_transition(*old(self), *final (self), false),
    {
        self.remove_finished_effects(false)
    }

    /// Removes every instant-policy instance that has taken part in one
    /// aggregation pass, together with its standing modifiers and granted
    /// tags: instant effects participate exactly once and their AddBase
    /// contribution stays folded into the base value.
    pub fn remove_instant_effects_system(&mut self)
        requires
            old(self).wf(),
        ensures
            final (self).wf(),
            Self::spec_removal_transition(*old(self), *final (self), true),
    {
        self.remove_finished_effects(true)
    }

    /// How many times a periodic timer fires during a tick of length `dt`:
    /// the unique count that leaves the timer in `(0, period]`. A
    /// non-periodic instance never fires.
    pub open spec fn spec_catch_up_count(p: Option<PeriodicEffect>, dt: int) -> int {
        match p {
            Some(p) => choose|k: int|
                0 <= k && 0 < p.time_until_next - dt + #[trigger] (k * p.period) <= p.period,
            None => 0,
        }
    }

    /// The timer relation pins the catch-up count.
    pub proof fn lemma_catch_up_unique(p: PeriodicEffect, dt: int, k: int)
        requires
            0 < p.period,
            0 <= k,
            0 < p.time_until_next - dt + k * p.period <= p.period,
        ensures
            k == Self::spec_catch_up_count(Some(p), dt),
    {
        assert(0 <= k && 0 < p.time_until_next - dt + k * p.period <= p.period);
        let k2 = Self::spec_catch_up_count(Some(p), dt);
        assert(0 <= k2 && 0 < p.time_until_next - dt + k2 * p.period <= p.period);
        if k < k2 {
            assert((k2 - k) * p.period >= p.period) by (nonlinear_arith)
                requires
                    k2 - k >= 1,
                    p.period > 0,
            ;
            assert(k2 * p.period - k * p.period == (k2 - k) * p.period) by (nonlinear_arith);
            assert(false);
        }
        if k2 < k {
            assert((k - k2) * p.period >= p.period) by (nonlinear_arith)
                requires
                    k - k2 >= 1,
                    p.period > 0,
            ;
            assert(k * p.period - k2 * p.period == (k - k2) * p.period) by (nonlinear_arith);
            assert(false);
        }
    }

    /// A value after `k` saturating additions of the same magnitude.
    pub open spec fn spec_sat_add_n(v: int, m: int, k: int) -> int
        decreases k,
    {
        if k <= 0 {
            v
        } else {
            spec_sat_add(Self::spec_sat_add_n(v, m, k - 1), m)
        }
    }

    /// The base value of one row after one instance executes `k` times:
    /// each of its AddBase templates aimed at the row folds in `k` times,
    /// with magnitudes evaluated against `attrs`.
    pub open spec fn spec_entry_fold_row(
        base: int,
        infos: Seq<ModifierInfo>,
        attrs: AttributeStore,
        instigator: Option<u64>,
        k: int,
        target: u64,
        row_owner: u64,
        row_name: Seq<char>,
    ) -> int
        decreases infos.len(),
    {
        if infos.len() == 0 {
            base
        } else {
            let prev = Self::spec_entry_fold_row(
                base,
                infos.drop_last(),
                attrs,
                instigator,
                k,
                target,
                row_owner,
                row_name,
            );
            if infos.last().operation is AddBase && row_owner == target
                && infos.last().attribute_name@ == row_name {
                Self::spec_sat_add_n(
                    prev,
                    spec_modifier_magnitude(attrs, infos.last(), instigator),
                    k,
                )
            } else {
                prev
            }
        }
    }

    /// Folding an entry zero times changes nothing.
    proof fn lemma_entry_fold_zero(
        base: int,
        infos: Seq<ModifierInfo>,
        attrs: AttributeStore,
        instigator: Option<u64>,
        target: u64,
        row_owner: u64,
        row_name: Seq<char>,
    )
        ensures
            Self::spec_entry_fold_row(base, infos, attrs, instigator, 0, target, row_owner, row_name)
                == base,
        decreases infos.len(),
    {
        if infos.len() > 0 {
            Self::lemma_entry_fold_zero(
                base,
                infos.drop_last(),
                attrs,
                instigator,
                target,
                row_owner,
                row_name,
            );
        }
    }

    /// The base value of one row after the whole periodic pass: the
    /// instances execute in table order, each firing its catch-up count.
    pub open spec fn spec_periodic_fold_row(
        base: int,
        entries: Seq<ActiveEffectEntry>,
        attrs: AttributeStore,
        dt: int,
        row_owner: u64,
        row_name: Seq<char>,
    ) -> int
        decreases entries.len(),
    {
        if entries.len() == 0 {
            base
        } else {
            let prev = Self::spec_periodic_fold_row(
                base,
                entries.drop_last(),
                attrs,
                dt,
                row_owner,
                row_name,
            );
            let e = entries.last();
            Self::spec_entry_fold_row(
                prev,
                e.base_folds@,
                attrs,
                e.instigator.0,
                Self::spec_catch_up_count(e.periodic, dt),
                e.target.0,
                row_owner,
                row_name,
            )
        }
    }

    /// Stores with the same keys and current values feed a calculation the
    /// same source value.
    proof fn lemma_magnitude_same_currents(
        a1: AttributeStore,
        a2: AttributeStore,
        calc: MagnitudeCalculation,
        instigator: Option<u64>,
    )
        requires
            a1.wf(),
            a2.wf(),
            a1.entries@.len() == a2.entries@.len(),
            forall|j: int|
                0 <= j < a1.entries@.len() ==> (#[trigger] a1.entries@[j]).owner
                    == a2.entries@[j].owner && a1.entries@[j].name@ == a2.entries@[j].name@
                    && a1.entries@[j].data.current_value == a2.entries@[j].data.current_value,
        ensures
            spec_mod_source_value(a1, calc, instigator) == spec_mod_source_value(
                a2,
                calc,
                instigator,
            ),
    {
        match calc {
            MagnitudeCalculation::AttributeBased {
                attribute_name,
                coefficient: _,
                pre_multiply_additive: _,
                post_multiply_additive: _,
            } => {
                match instigator {
                    Some(inst) => {
                        if a1.spec_has_attribute(inst, attribute_name@) {
                            let i1 = a1.spec_index_of(inst, attribute_name@);
                            assert(a2.entries@[i1].owner == inst && a2.entries@[i1].name@
                                == attribute_name@);
                            assert(a2.spec_has_attribute(inst, attribute_name@));
                            let i2 = a2.spec_index_of(inst, attribute_name@);
                            assert(a1.entries@[i2].owner == inst && a1.entries@[i2].name@
                                == attribute_name@);
                            if i1 != i2 {
                                assert(false);
                            }
                        } else {
                            if a2.spec_has_attribute(inst, attribute_name@) {
                                let i2 = a2.spec_index_of(inst, attribute_name@);
                                assert(a1.entries@[i2].owner == inst && a1.entries@[i2].name@
                                    == attribute_name@);
                                assert(false);
                            }
                        }
                    },
                    None => {},
                }
            },
            _ => {},
        }
    }

    /// Stores with the same keys and current values fold an entry to the
    /// same base value.
    proof fn lemma_entry_fold_same_currents(
        base: int,
        infos: Seq<ModifierInfo>,
        a1: AttributeStore,
        a2: AttributeStore,
        instigator: Option<u64>,
        k: int,
        target: u64,
        row_owner: u64,
        row_name: Seq<char>,
    )
        requires
            a1.wf(),
            a2.wf(),
            a1.entries@.len() == a2.entries@.len(),
            forall|j: int|
                0 <= j < a1.entries@.len() ==> (#[trigger] a1.entries@[j]).owner
                    == a2.entries@[j].owner && a1.entries@[j].name@ == a2.entries@[j].name@
                    && a1.entries@[j].data.current_value == a2.entries@[j].data.current_value,
        ensures
            Self::spec_entry_fold_row(base, infos, a1, instigator, k, target, row_owner, row_name)
                == Self::spec_entry_fold_row(
                base,
                infos,
                a2,
                instigator,
                k,
                target,
                row_owner,
                row_name,
            ),
        decreases infos.len(),
    {
        if infos.len() > 0 {
            Self::lemma_entry_fold_same_currents(
                base,
                infos.drop_last(),
                a1,
                a2,
                instigator,
                k,
                target,
                row_owner,
                row_name,
            );
            Self::lemma_magnitude_same_currents(a1, a2, infos.last().magnitude, instigator);
        }
    }

    /// Performs `k` periodic executions of the instance at table index `j`:
    /// every standing modifier it owns gets its magnitude re-evaluated, and
    /// each of its AddBase templates folds into the target's base `k` times.
    #[verifier::loop_isolation(false)]
    fn run_periodic_executions(&mut self, j: usize, k: u64)
        requires
            old(self).wf(),
            0 <= j < old(self).active_effects@.len(),
        ensures
            final (self).wf(),
            final (self).active_effects == old(self).active_effects,
            final (self).modifiers@.len() == old(self).modifiers@.len(),
            forall|mi: int|
                0 <= mi < old(self).modifiers@.len() ==> {
                    let prev = #[trigger] old(self).modifiers@[mi];
                    let now = final (self).modifiers@[mi];
                    now.source == prev.source && now.calc == prev.calc
                        && now.modifier.target_entity == prev.modifier.target_entity
                        && now.modifier.target_attribute == prev.modifier.target_attribute
                        && now.modifier.operation == prev.modifier.operation
                        && now.modifier.magnitude as int == (if k > 0 && prev.source.0 == old(
                        self,
                    ).active_effects@[j as int].id {
                        spec_evaluate_magnitude(
                            prev.calc,
                            spec_mod_source_value(
                                old(self).attributes,
                                prev.calc,
                                old(self).active_effects@[j as int].instigator.0,
                            ),
                        )
                    } else {
                        prev.modifier.magnitude as int
                    })
                },
            final (self).attributes.entries@.len() == old(self).attributes.entries@.len(),
            forall|r: int|
                0 <= r < old(self).attributes.entries@.len() ==> {
                    let prev = #[trigger] old(self).attributes.entries@[r];
                    let now = final (self).attributes.entries@[r];
                    now.owner == prev.owner && now.name@ == prev.name@ && now.metadata
                        == prev.metadata && now.data.current_value == prev.data.current_value
                        && now.data.base_value as int == Self::spec_entry_fold_row(
                        prev.data.base_value as int,
                        old(self).active_effects@[j as int].base_folds@,
                        old(self).attributes,
                        old(self).active_effects@[j as int].instigator.0,
                        k as int,
                        old(self).active_effects@[j as int].target.0,
                        prev.owner,
                        prev.name@,
                    )
                },
            final (self).effect_registry == old(self).effect_registry,
            final (self).ability_registry == old(self).ability_registry,
            final (self).owner_tags == old(self).owner_tags,
            final (self).abilities == old(self).abilities,
            final (self).next_effect_id == old(self).next_effect_id,
            final (self).next_ability_id == old(self).next_ability_id,
            final (self).time == old(self).time,
    {
        let ghost entry = old(self).active_effects@[j as int];
        let ghost infos = entry.base_folds@;
        if k == 0 {
            proof {
                assert forall|r: int|
                    0 <= r < old(self).attributes.entries@.len() implies {
                    let prev = #[trigger] old(self).attributes.entries@[r];
                    prev.data.base_value as int == Self::spec_entry_fold_row(
                        prev.data.base_value as int,
                        infos,
                        old(self).attributes,
                        entry.instigator.0,
                        0,
                        entry.target.0,
                        prev.owner,
                        prev.name@,
                    )
                } by {
                    Self::lemma_entry_fold_zero(
                        old(self).attributes.entries@[r].data.base_value as int,
                        infos,
                        old(self).attributes,
                        entry.instigator.0,
                        entry.target.0,
                        old(self).attributes.entries@[r].owner,
                        old(self).attributes.entries@[r].name@,
                    );
                }
            }
            return ;
        }
        let sid = self.active_effects[j].id;
        let inst = self.active_effects[j].instigator;
        let level = self.active_effects[j].effect.level;

        // Re-evaluate the standing modifiers this instance owns.
        let mut mi: usize = 0;
        while mi < self.modifiers.len()
            invariant
                0 <= mi <= old(self).modifiers@.len(),
                self.modifiers@.len() == old(self).modifiers@.len(),
                self.effect_registry == old(self).effect_registry,
                self.ability_registry == old(self).ability_registry,
                self.attributes == old(self).attributes,
                self.owner_tags == old(self).owner_tags,
                self.active_effects == old(self).active_effects,
                self.abilities == old(self).abilities,
                self.next_effect_id == old(self).next_effect_id,
                self.next_ability_id == old(self).next_ability_id,
                self.time == old(self).time,
                forall|t: int|
                    mi <= t < old(self).modifiers@.len() ==> self.modifiers@[t] == old(
                        self,
                    ).modifiers@[t],
                forall|t: int|
                    0 <= t < mi ==> {
                        let prev = #[trigger] old(self).modifiers@[t];
                        let now = self.modifiers@[t];
                        now.source == prev.source && now.calc == prev.calc
                            && now.modifier.target_entity == prev.modifier.target_entity
                            && now.modifier.target_attribute == prev.modifier.target_attribute
                            && now.modifier.operation == prev.modifier.operation
                            && now.modifier.magnitude as int == (if prev.source.0 == entry.id {
                            spec_evaluate_magnitude(
                                prev.calc,
                                spec_mod_source_value(
                                    old(self).attributes,
                                    prev.calc,
                                    entry.instigator.0,
                                ),
                            )
                        } else {
                            prev.modifier.magnitude as int
                        })
                    },
            decreases old(self).modifiers@.len() - mi,
        {
            if self.modifiers[mi].source.0 == sid {
                let source_val: Option<i64> = match &self.modifiers[mi].calc {
                    MagnitudeCalculation::AttributeBased {
                        attribute_name,
                        coefficient: _,
                        pre_multiply_additive: _,
                        post_multiply_additive: _,
                    } => match inst.0 {
                        Some(iv) => self.attributes.get_current(iv, attribute_name.as_str()),
                        None => None,
                    },
                    _ => None,
                };
                let v = self.modifiers[mi].calc.evaluate(level, source_val);
                self.modifiers[mi].modifier.magnitude = v;
            }
            mi = mi + 1;
        }

        // Fold the AddBase templates into the target's base values, once
        // per execution.
        let ghost mods_after = self.modifiers@;
        let mut f: usize = 0;
        while f < self.active_effects[j].base_folds.len()
            invariant
                0 <= f <= infos.len(),
                self.effect_registry == old(self).effect_registry,
                self.ability_registry == old(self).ability_registry,
                self.owner_tags == old(self).owner_tags,
                self.active_effects == old(self).active_effects,
                self.modifiers@ == mods_after,
                self.abilities == old(self).abilities,
                self.next_effect_id == old(self).next_effect_id,
                self.next_ability_id == old(self).next_ability_id,
                self.time == old(self).time,
                self.attributes.wf(),
                self.attributes.entries@.len() == old(self).attributes.entries@.len(),
                forall|r: int|
                    0 <= r < old(self).attributes.entries@.len() ==> {
                        let prev = #[trigger] old(self).attributes.entries@[r];
                        let now = self.attributes.entries@[r];
                        now.owner == prev.owner && now.name@ == prev.name@ && now.metadata
                            == prev.metadata && now.data.current_value == prev.data.current_value
                            && now.data.base_value as int == Self::spec_entry_fold_row(
                            prev.data.base_value as int,
                            infos.take(f as int),
                            old(self).attributes,
                            entry.instigator.0,
                            k as int,
                            entry.target.0,
                            prev.owner,
                            prev.name@,
                        )
                    },
            decreases infos.len() - f,
        {
            proof {
                assert(infos.take(f + 1).drop_last() =~= infos.take(f as int));
                assert(infos.take(f + 1).last() == infos[f as int]);
            }
            let op = self.active_effects[j].base_folds[f].operation;
            match op {
                ModifierOperation::AddBase => {
                    let source_val: Option<i64> = match &self.active_effects[j].base_folds[f].magnitude {
                        MagnitudeCalculation::AttributeBased {
                            attribute_name,
                            coefficient: _,
                            pre_multiply_additive: _,
                            post_multiply_additive: _,
                        } => match inst.0 {
                            Some(iv) => self.attributes.get_current(iv, attribute_name.as_str()),
                            None => None,
                        },
                        _ => None,
                    };
                    let mag = self.active_effects[j].base_folds[f].magnitude.evaluate(
                        level,
                        source_val,
                    );
                    proof {
                        Self::lemma_magnitude_same_currents(
                            self.attributes,
                            old(self).attributes,
                            infos[f as int].magnitude,
                            entry.instigator.0,
                        );
                        assert(mag as int == spec_modifier_magnitude(
                            old(self).attributes,
                            infos[f as int],
                            entry.instigator.0,
                        ));
                    }
                    let ghost stage = self.attributes;
                    let mut c: u64 = 0;
                    while c < k
                        invariant
                            0 <= c <= k,
                            self.effect_registry == old(self).effect_registry,
                            self.ability_registry == old(self).ability_registry,
                            self.owner_tags == old(self).owner_tags,
                            self.active_effects == old(self).active_effects,
                            self.modifiers@ == mods_after,
                            self.abilities == old(self).abilities,
                            self.next_effect_id == old(self).next_effect_id,
                            self.next_ability_id == old(self).next_ability_id,
                            self.time == old(self).time,
                            self.attributes.wf(),
                            self.attributes.entries@.len() == stage.entries@.len(),
                            stage.entries@.len() == old(self).attributes.entries@.len(),
                            forall|r: int|
                                0 <= r < stage.entries@.len() ==> {
                                    let base = #[trigger] stage.entries@[r];
                                    let now = self.attributes.entries@[r];
                                    now.owner == base.owner && now.name@ == base.name@
                                        && now.metadata == base.metadata
                                        && now.data.current_value == base.data.current_value
                                        && now.data.base_value as int == (if base.owner
                                        == entry.target.0 && base.name@
                                        == infos[f as int].attribute_name@ {
                                        Self::spec_sat_add_n(
                                            base.data.base_value as int,
                                            mag as int,
                                            c as int,
                                        )
                                    } else {
                                        base.data.base_value as int
                                    })
                                },
                        decreases k - c,
                    {
                        self.attributes.add_to_base(
                            self.active_effects[j].target.0,
                            self.active_effects[j].base_folds[f].attribute_name.as_str(),
                            mag,
                        );
                        c = c + 1;
                    }
                },
                _ => {},
            }
            f = f + 1;
        }
        proof {
            assert(infos.take(infos.len() as int) =~= infos);
            assert forall|t: int|
                0 <= t < self.active_effects@.len() implies match (
            #[trigger] self.active_effects@[t]).periodic {
                Some(q) => 0 < q.period && 0 < q.time_until_next <= q.period,
                None => true,
            } by {
                assert(self.active_effects@[t] == old(self).active_effects@[t]);
                assert(old(self).active_effects@[t].id < old(self).next_effect_id);
            }
            assert(forall|t: int|
                0 <= t < self.active_effects@.len() ==> (#[trigger] self.active_effects@[t]).id
                    == old(self).active_effects@[t].id);
            self.lemma_wf_components(old(self));
        }
    }

    /// Advances every periodic timer by the tick's delta and fires the
    /// catch-up executions: an instance whose timer crosses zero executes
    /// once per crossed period, re-evaluating its modifier magnitudes and
    /// folding its AddBase templates into the target's base values each
    /// time. Supports several executions in one tick.
    #[verifier::loop_isolation(false)]
    pub fn execute_periodic_effects_system(&mut self, dt: i64)
        requires
            old(self).wf(),
            0 <= dt,
        ensures
            final (self).wf(),
            Self::spec_periodic_transition(*old(self), *final (self), dt as int),
    {
        let ghost orig = old(self).active_effects@;
        let mut j: usize = 0;
        while j < self.active_effects.len()
            invariant
                0 <= j <= orig.len(),
                self.wf(),
                self.active_effects@.len() == orig.len(),
                self.effect_registry == old(self).effect_registry,
                self.ability_registry == old(self).ability_registry,
                self.owner_tags == old(self).owner_tags,
                self.abilities == old(self).abilities,
                self.next_effect_id == old(self).next_effect_id,
                self.next_ability_id == old(self).next_ability_id,
                self.time == old(self).time,
                forall|t: int|
                    j <= t < orig.len() ==> self.active_effects@[t] == old(
                        self,
                    ).active_effects@[t],
                forall|t: int|
                    0 <= t < j ==> {
                        let prev = #[trigger] old(self).active_effects@[t];
                        let now = self.active_effects@[t];
                        now.id == prev.id && now.effect == prev.effect && now.target == prev.target
                            && now.instigator == prev.instigator && now.duration == prev.duration
                            && now.granted_tags == prev.granted_tags && now.base_folds
                            == prev.base_folds && now.instant == prev.instant && now.aggregated
                            == prev.aggregated && now.periodic == match prev.periodic {
                            Some(p) => Some(
                                PeriodicEffect {
                                    period: p.period,
                                    time_until_next: (p.time_until_next - dt
                                        + Self::spec_catch_up_count(Some(p), dt as int) * p.period) as i64,
                                },
                            ),
                            None => None,
                        }
                    },
                self.modifiers@.len() == old(self).modifiers@.len(),
                forall|mi: int|
                    0 <= mi < old(self).modifiers@.len() ==> {
                        let prev = #[trigger] old(self).modifiers@[mi];
                        let now = self.modifiers@[mi];
                        let w = old(self).spec_instance_index(prev.source.0);
                        let e = old(self).active_effects@[w];
                        now.source == prev.source && now.calc == prev.calc
                            && now.modifier.target_entity == prev.modifier.target_entity
                            && now.modifier.target_attribute == prev.modifier.target_attribute
                            && now.modifier.operation == prev.modifier.operation
                            && now.modifier.magnitude as int == (if w < j
                            && Self::spec_catch_up_count(e.periodic, dt as int) > 0 {
                            spec_evaluate_magnitude(
                                prev.calc,
                                spec_mod_source_value(
                                    old(self).attributes,
                                    prev.calc,
                                    e.instigator.0,
                                ),
                            )
                        } else {
                            prev.modifier.magnitude as int
                        })
                    },
                self.attributes.entries@.len() == old(self).attributes.entries@.len(),
                forall|r: int|
                    0 <= r < old(self).attributes.entries@.len() ==> {
                        let prev = #[trigger] old(self).attributes.entries@[r];
                        let now = self.attributes.entries@[r];
                        now.owner == prev.owner && now.name@ == prev.name@ && now.metadata
                            == prev.metadata && now.data.current_value == prev.data.current_value
                            && now.data.base_value as int == Self::spec_periodic_fold_row(
                            prev.data.base_value as int,
                            orig.take(j as int),
                            old(self).attributes,
                            dt as int,
                            prev.owner,
                            prev.name@,
                        )
                    },
            decreases orig.len() - j,
        {
            proof {
                assert(orig.take(j + 1).drop_last() =~= orig.take(j as int));
                assert(orig.take(j + 1).last() == orig[j as int]);
            }
            let ghost mid = *self;
            let per = self.active_effects[j].periodic;
            match per {
                Some(p0) => {
                    let mut p = p0;
                    let k = p.advance(dt);
                    proof {
                        Self::lemma_catch_up_unique(p0, dt as int, k as int);
                    }
                    self.run_periodic_executions(j, k);
                    self.active_effects[j].periodic = Some(p);
                    proof {
                        let jj = j as int;
                        let entry = orig[jj];
                        assert(mid.active_effects@[jj] == entry);
                        // Standing modifiers: the helper re-evaluated exactly
                        // this instance's, against a store with unchanged
                        // current values.
                        assert forall|mi: int|
                            0 <= mi < old(self).modifiers@.len() implies {
                            let prev = #[trigger] old(self).modifiers@[mi];
                            let now = self.modifiers@[mi];
                            let w = old(self).spec_instance_index(prev.source.0);
                            let e = old(self).active_effects@[w];
                            now.source == prev.source && now.calc == prev.calc
                                && now.modifier.target_entity == prev.modifier.target_entity
                                && now.modifier.target_attribute == prev.modifier.target_attribute
                                && now.modifier.operation == prev.modifier.operation
                                && now.modifier.magnitude as int == (if w < jj + 1
                                && Self::spec_catch_up_count(e.periodic, dt as int) > 0 {
                                spec_evaluate_magnitude(
                                    prev.calc,
                                    spec_mod_source_value(
                                        old(self).attributes,
                                        prev.calc,
                                        e.instigator.0,
                                    ),
                                )
                            } else {
                                prev.modifier.magnitude as int
                            })
                        } by {
                            let prev = old(self).modifiers@[mi];
                            assert(old(self).spec_has_instance(prev.source.0));
                            let w = old(self).spec_instance_index(prev.source.0);
                            assert(old(self).active_effects@[w].id == prev.source.0);
                            if w == jj {
                                assert(mid.modifiers@[mi] == prev);
                                assert(prev.source.0 == entry.id);
                                Self::lemma_magnitude_same_currents(
                                    mid.attributes,
                                    old(self).attributes,
                                    prev.calc,
                                    entry.instigator.0,
                                );
                            } else {
                                assert(old(self).active_effects@[w].id != entry.id);
                                assert(mid.modifiers@[mi].source.0 != entry.id);
                            }
                        }
                        // Attribute bases: this entry's folds compose onto
                        // the folds of the earlier entries.
                        assert forall|r: int|
                            0 <= r < old(self).attributes.entries@.len() implies {
                            let prev = #[trigger] old(self).attributes.entries@[r];
                            let now = self.attributes.entries@[r];
                            now.owner == prev.owner && now.name@ == prev.name@ && now.metadata
                                == prev.metadata && now.data.current_value
                                == prev.data.current_value && now.data.base_value as int
                                == Self::spec_periodic_fold_row(
                                prev.data.base_value as int,
                                orig.take(jj + 1),
                                old(self).attributes,
                                dt as int,
                                prev.owner,
                                prev.name@,
                            )
                        } by {
                            let prev = old(self).attributes.entries@[r];
                            assert(mid.attributes.entries@[r].data.base_value as int
                                == Self::spec_periodic_fold_row(
                                prev.data.base_value as int,
                                orig.take(jj),
                                old(self).attributes,
                                dt as int,
                                prev.owner,
                                prev.name@,
                            ));
                            Self::lemma_entry_fold_same_currents(
                                mid.attributes.entries@[r].data.base_value as int,
                                entry.base_folds@,
                                mid.attributes,
                                old(self).attributes,
                                entry.instigator.0,
                                k as int,
                                entry.target.0,
                                prev.owner,
                                prev.name@,
                            );
                        }
                        // Well-formedness carries over from the loop head.
                        assert forall|t: int|
                            0 <= t < self.active_effects@.len() implies match (
                        #[trigger] self.active_effects@[t]).periodic {
                            Some(q) => 0 < q.period && 0 < q.time_until_next <= q.period,
                            None => true,
                        } by {
                            if t != jj {
                                assert(self.active_effects@[t] == mid.active_effects@[t]);
                                assert(mid.active_effects@[t].id < mid.next_effect_id);
                            }
                        }
                        assert(forall|t: int|
                            0 <= t < self.active_effects@.len() ==> (
                            #[trigger] self.active_effects@[t]).id == mid.active_effects@[t].id);
                        assert(forall|t: int|
                            0 <= t < self.modifiers@.len() ==> (#[trigger] self.modifiers@[t]).source
                                == mid.modifiers@[t].source);
                        self.lemma_wf_components(&mid);
                    }
                },
                None => {
                    proof {
                        assert forall|r: int|
                            0 <= r < old(self).attributes.entries@.len() implies {
                            let prev = #[trigger] old(self).attributes.entries@[r];
                            let now = self.attributes.entries@[r];
                            now.data.base_value as int == Self::spec_periodic_fold_row(
                                prev.data.base_value as int,
                                orig.take(j + 1),
                                old(self).attributes,
                                dt as int,
                                prev.owner,
                                prev.name@,
                            )
                        } by {
                            Self::lemma_entry_fold_zero(
                                Self::spec_periodic_fold_row(
                                    old(self).attributes.entries@[r].data.base_value as int,
                                    orig.take(j as int),
                                    old(self).attributes,
                                    dt as int,
                                    old(self).attributes.entries@[r].owner,
                                    old(self).attributes.entries@[r].name@,
                                ),
                                orig[j as int].base_folds@,
                                old(self).attributes,
                                orig[j as int].instigator.0,
                                orig[j as int].target.0,
                                old(self).attributes.entries@[r].owner,
                                old(self).attributes.entries@[r].name@,
                            );
                        }
                    }
                },
            }
            j = j + 1;
        }
        proof {
            assert(orig.take(orig.len() as int) =~= orig);
        }
    }

    /// Registers an effect definition (last write wins, no error).
    pub fn register_effect(&mut self, definition: GameplayEffectDefinition)
        requires
            old(self).wf(),
        ensures
            final (self).wf(),
            final (self).effect_registry.spec_has(definition.id@),
            final (self).effect_registry.definitions@[final (self).effect_registry.spec_index_of(
                definition.id@,
            )] == definition,
            forall|other: Seq<char>|
                other != definition.id@ ==> (final (self).effect_registry.spec_has(other) == old(
                    self,
                ).effect_registry.spec_has(other) && (old(self).effect_registry.spec_has(other)
                    ==> final (self).effect_registry.definitions@[final (self).effect_registry.spec_index_of(
                    other,
                )]
                    == old(self).effect_registry.definitions@[old(
                    self,
                ).effect_registry.spec_index_of(other)])),
            final (self).ability_registry == old(self).ability_registry,
            final (self).attributes == old(self).attributes,
            final (self).owner_tags == old(self).owner_tags,
            final (self).active_effects == old(self).active_effects,
            final (self).modifiers == old(self).modifiers,
            final (self).abilities == old(self).abilities,
            final (self).next_effect_id == old(self).next_effect_id,
            final (self).next_ability_id == old(self).next_ability_id,
            final (self).time == old(self).time,
    {
        self.effect_registry.register(definition);
        proof {
            self.lemma_wf_components(old(self));
        }
    }

    /// Registers an ability definition (last write wins, no error).
    pub fn register_ability(&mut self, definition: AbilityDefinition)
        requires
            old(self).wf(),
        ensures
            final (self).wf(),
            final (self).ability_registry.spec_has(definition.id@),
            final (self).ability_registry.definitions@[final (self).ability_registry.spec_index_of(
                definition.id@,
            )] == definition,
            forall|other: Seq<char>|
                other != definition.id@ ==> (final (self).ability_registry.spec_has(other) == old(
                    self,
                ).ability_registry.spec_has(other) && (old(self).ability_registry.spec_has(other)
                    ==> final (self).ability_registry.definitions@[final (self).ability_registry.spec_index_of(
                    other,
                )]
                    == old(self).ability_registry.definitions@[old(
                    self,
                ).ability_registry.spec_index_of(other)])),
            final (self).effect_registry == old(self).effect_registry,
            final (self).attributes == old(self).attributes,
            final (self).owner_tags == old(self).owner_tags,
            final (self).active_effects == old(self).active_effects,
            final (self).modifiers == old(self).modifiers,
            final (self).abilities == old(self).abilities,
            final (self).next_effect_id == old(self).next_effect_id,
            final (self).next_ability_id == old(self).next_ability_id,
            final (self).time == old(self).time,
    {
        self.ability_registry.register(definition);
        proof {
            self.lemma_wf_components(old(self));
        }
    }

    /// Whether the owner's tags allow activating under the definition:
    /// every required tag held and no blocked tag held.
    pub open spec fn spec_ability_tags_allow(&self, def: AbilityDefinition, owner: u64) -> bool {
        &&& forall|i: int|
            0 <= i < def.activation_required_tags@.len() ==> self.spec_owner_has_tag(
                owner,
                def.activation_required_tags@[i]@,
            )
        &&& !(exists|i: int|
            0 <= i < def.activation_blocked_tags@.len() && self.spec_owner_has_tag(
                owner,
                def.activation_blocked_tags@[i]@,
            ))
    }

    /// Checks the owner's tags against the definition's activation
    /// requirements.
    fn ability_tags_allow(&self, def_index: usize, owner: u64) -> (r: bool)
        requires
            self.wf(),
            0 <= def_index < self.ability_registry.definitions@.len(),
        ensures
            r == self.spec_ability_tags_allow(
                self.ability_registry.definitions@[def_index as int],
                owner,
            ),
    {
        let mut i: usize = 0;
        while i < self.ability_registry.definitions[def_index].activation_required_tags.len()
            invariant
                self.wf(),
                0 <= def_index < self.ability_registry.definitions@.len(),
                0 <= i <= self.ability_registry.definitions@[def_index as int].activation_required_tags@.len(),
                forall|t: int|
                    0 <= t < i ==> self.spec_owner_has_tag(
                        owner,
                        self.ability_registry.definitions@[def_index as int].activation_required_tags@[t]@,
                    ),
            decreases self.ability_registry.definitions@[def_index as int].activation_required_tags@.len()
                - i,
        {
            if !self.has_matching_tag(
                owner,
                &self.ability_registry.definitions[def_index].activation_required_tags[i],
            ) {
                return false;
            }
            i = i + 1;
        }
        let mut i: usize = 0;
        while i < self.ability_registry.definitions[def_index].activation_blocked_tags.len()
            invariant
                self.wf(),
                0 <= def_index < self.ability_registry.definitions@.len(),
                0 <= i <= self.ability_registry.definitions@[def_index as int].activation_blocked_tags@.len(),
                forall|t: int|
                    0 <= t < i ==> !self.spec_owner_has_tag(
                        owner,
                        self.ability_registry.definitions@[def_index as int].activation_blocked_tags@[t]@,
                    ),
            decreases self.ability_registry.definitions@[def_index as int].activation_blocked_tags@.len()
                - i,
        {
            if self.has_matching_tag(
                owner,
                &self.ability_registry.definitions[def_index].activation_blocked_tags[i],
            ) {
                return false;
            }
            i = i + 1;
        }
        true
    }

    /// Finds the table index of the granted ability with the id.
    #[verifier::loop_isolation(false)]
    fn find_ability(&self, id: u64) -> (r: Option<usize>)
        requires
            self.wf(),
        ensures
            match r {
                Some(i) => 0 <= i < self.abilities@.len() && self.abilities@[i as int].id == id
                    && self.spec_ability_index(id) == i,
                None => !self.spec_has_ability(id),
            },
    {
        let mut i: usize = 0;
        while i < self.abilities.len()
            invariant
                0 <= i <= self.abilities@.len(),
                forall|t: int| 0 <= t < i ==> self.abilities@[t].id != id,
            decreases self.abilities@.len() - i,
        {
            if self.abilities[i].id == id {
                proof {
                    assert(self.spec_has_ability(id));
                    let c = self.spec_ability_index(id);
                    assert(0 <= c < self.abilities@.len() && self.abilities@[c].id == id);
                    if c < i {
                        assert(self.abilities@[c].id != self.abilities@[i as int].id);
                    }
                    if i < c {
                        assert(self.abilities@[i as int].id != self.abilities@[c].id);
                    }
                }
                return Some(i);
            }
            i = i + 1;
        }
        None
    }

    /// What a successful activation does to the granted ability: it becomes
    /// active and uncommitted, its displayed state is Active, and instanced
    /// policies record a live activation instance.
    pub open spec fn spec_entry_activated(
        prev: AbilityEntry,
        now: AbilityEntry,
        policy: InstancingPolicy,
        time: i64,
    ) -> bool {
        &&& now.id == prev.id
        &&& now.owner == prev.owner
        &&& now.spec.definition_id == prev.spec.definition_id
        &&& now.spec.level == prev.spec.level
        &&& now.spec.input_id == prev.spec.input_id
        &&& now.spec.is_active
        &&& now.state == AbilityState::Active
        &&& now.cooldown == prev.cooldown
        &&& !now.committed
        &&& now.instance == (if policy is NonInstanced {
            Option::<ActiveAbilityInstance>::None
        } else {
            Some(ActiveAbilityInstance { spec_entity: prev.id, activation_time: time, is_committed: false })
        })
    }

    /// Tries to activate a granted ability.
    ///
    /// Fails with AlreadyActive when the spec is already active, with
    /// DefinitionNotFound when the grant or its definition is unknown, with
    /// TagBlocked when the owner's tags fail the activation requirements,
    /// and with OnCooldown when an unexpired cooldown marker exists. On
    /// success the grant transitions to Active; nothing else in the world
    /// moves.
    pub fn try_activate_ability(&mut self, ability: u64) -> (r: Result<(), AbilityError>)
        requires
            old(self).wf(),
        ensures
            final (self).wf(),
            ({
                let pre = *old(self);
                if !pre.spec_has_ability(ability) {
                    r == Err::<(), AbilityError>(AbilityError::DefinitionNotFound) && *final (self)
                        == pre
                } else {
                    let j = pre.spec_ability_index(ability);
                    let e = pre.abilities@[j];
                    if e.spec.is_active {
                        r == Err::<(), AbilityError>(AbilityError::AlreadyActive) && *final (self)
                            == pre
                    } else if !pre.ability_registry.spec_has(e.spec.definition_id@) {
                        r == Err::<(), AbilityError>(AbilityError::DefinitionNotFound) && *final (
                        self) == pre
                    } else {
                        let def = pre.ability_registry.definitions@[pre.ability_registry.spec_index_of(
                            e.spec.definition_id@,
                        )];
                        if !pre.spec_ability_tags_allow(def, e.owner.0) {
                            r == Err::<(), AbilityError>(AbilityError::TagBlocked) && *final (self)
                                == pre
                        } else if e.cooldown matches Some(c) && c.remaining > 0 {
                            r == Err::<(), AbilityError>(AbilityError::OnCooldown) && *final (self)
                                == pre
                        } else {
                            &&& r == Ok::<(), AbilityError>(())
                            &&& final (self).abilities@.len() == pre.abilities@.len()
                            &&& forall|t: int|
                                0 <= t < pre.abilities@.len() && t != j ==> final (self).abilities@[t]
                                    == pre.abilities@[t]
                            &&& Self::spec_entry_activated(
                                e,
                                final (self).abilities@[j],
                                def.instancing_policy,
                                pre.time,
                            )
                            &&& final (self).effect_registry == pre.effect_registry
                            &&& final (self).ability_registry == pre.ability_registry
                            &&& final (self).attributes == pre.attributes
                            &&& final (self).owner_tags == pre.owner_tags
                            &&& final (self).active_effects == pre.active_effects
                            &&& final (self).modifiers == pre.modifiers
                            &&& final (self).next_effect_id == pre.next_effect_id
                            &&& final (self).next_ability_id == pre.next_ability_id
                            &&& final (self).time == pre.time
                        }
                    }
                }
            }),
    {
        let j = match self.find_ability(ability) {
            Some(j) => j,
            None => {
                return Err(AbilityError::DefinitionNotFound);
            },
        };
        if self.abilities[j].spec.is_active {
            return Err(AbilityError::AlreadyActive);
        }
        let di = match self.ability_registry.find(self.abilities[j].spec.definition_id.as_str()) {
            Some(di) => di,
            None => {
                return Err(AbilityError::DefinitionNotFound);
            },
        };
        proof {
            let k = self.ability_registry.spec_index_of(
                self.abilities@[j as int].spec.definition_id@,
            );
            assert(k == di);
        }
        if !self.ability_tags_allow(di, self.abilities[j].owner.0) {
            return Err(AbilityError::TagBlocked);
        }
        let on_cooldown = match &self.abilities[j].cooldown {
            Some(c) => c.remaining > 0,
            None => false,
        };
        if on_cooldown {
            return Err(AbilityError::OnCooldown);
        }
        let policy = self.ability_registry.definitions[di].instancing_policy;
        self.abilities[j].spec.is_active = true;
        self.abilities[j].state = AbilityState::Active;
        self.abilities[j].committed = false;
        self.abilities[j].instance = match policy {
            InstancingPolicy::NonInstanced => None,
            _ => Some(ActiveAbilityInstance::new(self.abilities[j].id, self.time)),
        };
        proof {
            self.lemma_wf_components(old(self));
        }
        Ok(())
    }

    /// Ends an active granted ability: despawns its activation instance,
    /// clears the active flag and returns the displayed state to Ready.
    /// Returns whether an active ability was ended.
    pub fn end_ability(&mut self, ability: u64) -> (ended: bool)
        requires
            old(self).wf(),
        ensures
            final (self).wf(),
            ({
                let pre = *old(self);
                if !pre.spec_has_ability(ability) {
                    !ended && *final (self) == pre
                } else {
                    let j = pre.spec_ability_index(ability);
                    let e = pre.abilities@[j];
                    if !e.spec.is_active {
                        !ended && *final (self) == pre
                    } else {
                        &&& ended
                        &&& final (self).abilities@.len() == pre.abilities@.len()
                        &&& forall|t: int|
                            0 <= t < pre.abilities@.len() && t != j ==> final (self).abilities@[t]
                                == pre.abilities@[t]
                        &&& Self::spec_entry_deactivated(e, final (self).abilities@[j])
                        &&& final (self).effect_registry == pre.effect_registry
                        &&& final (self).ability_registry == pre.ability_registry
                        &&& final (self).attributes == pre.attributes
                        &&& final (self).owner_tags == pre.owner_tags
                        &&& final (self).active_effects == pre.active_effects
                        &&& final (self).modifiers == pre.modifiers
                        &&& final (self).next_effect_id == pre.next_effect_id
                        &&& final (self).next_ability_id == pre.next_ability_id
                        &&& final (self).time == pre.time
                    }
                }
            }),
    {
        let j = match self.find_ability(ability) {
            Some(j) => j,
            None => {
                return false;
            },
        };
        if !self.abilities[j].spec.is_active {
            return false;
        }
        self.abilities[j].spec.is_active = false;
        self.abilities[j].state = AbilityState::Ready;
        self.abilities[j].instance = None;
        proof {
            self.lemma_wf_components(old(self));
        }
        true
    }

    /// What ending (or cancelling) does to the granted ability.
    pub open spec fn spec_entry_deactivated(prev: AbilityEntry, now: AbilityEntry) -> bool {
        &&& now.id == prev.id
        &&& now.owner == prev.owner
        &&& now.spec.definition_id == prev.spec.definition_id
        &&& now.spec.level == prev.spec.level
        &&& now.spec.input_id == prev.spec.input_id
        &&& !now.spec.is_active
        &&& now.state == AbilityState::Ready
        &&& now.cooldown == prev.cooldown
        &&& now.committed == prev.committed
        &&& now.instance is None
    }

    /// Cancels an active granted ability: forced to Ready through the same
    /// path as `end_ability`.
    pub fn cancel_ability(&mut self, ability: u64) -> (cancelled: bool)
        requires
            old(self).wf(),
        ensures
            final (self).wf(),
            ({
                let pre = *old(self);
                if !pre.spec_has_ability(ability) {
                    !cancelled && *final (self) == pre
                } else {
                    let j = pre.spec_ability_index(ability);
                    let e = pre.abilities@[j];
                    if !e.spec.is_active {
                        !cancelled && *final (self) == pre
                    } else {
                        &&& cancelled
                        &&& final (self).abilities@.len() == pre.abilities@.len()
                        &&& forall|t: int|
                            0 <= t < pre.abilities@.len() && t != j ==> final (self).abilities@[t]
                                == pre.abilities@[t]
                        &&& Self::spec_entry_deactivated(e, final (self).abilities@[j])
                        &&& final (self).effect_registry == pre.effect_registry
                        &&& final (self).ability_registry == pre.ability_registry
                        &&& final (self).attributes == pre.attributes
                        &&& final (self).owner_tags == pre.owner_tags
                        &&& final (self).active_effects == pre.active_effects
                        &&& final (self).modifiers == pre.modifiers
                        &&& final (self).next_effect_id == pre.next_effect_id
                        &&& final (self).next_ability_id == pre.next_ability_id
                        &&& final (self).time == pre.time
                    }
                }
            }),
    {
        self.end_ability(ability)
    }

    /// Commits an active ability: applies its cost and cooldown effects to
    /// the owner and starts the cooldown marker. Committing is idempotent
    /// per activation: an already-committed (or inactive, or unknown)
    /// ability is left exactly as it is and nothing is charged again.
    pub fn commit_ability(&mut self, ability: u64) -> (committed_now: bool)
        requires
            old(self).wf(),
            old(self).next_effect_id < u64::MAX - 1,
        ensures
            final (self).wf(),
            ({
                let pre = *old(self);
                if !pre.spec_has_ability(ability) {
                    !committed_now && *final (self) == pre
                } else {
                    let j = pre.spec_ability_index(ability);
                    let e = pre.abilities@[j];
                    if !e.spec.is_active || e.committed || !pre.ability_registry.spec_has(
                        e.spec.definition_id@,
                    ) {
                        !committed_now && *final (self) == pre
                    } else {
                        let def = pre.ability_registry.definitions@[pre.ability_registry.spec_index_of(
                            e.spec.definition_id@,
                        )];
                        &&& committed_now
                        &&& exists|mid: Self|
                            #[trigger] Self::spec_commit_marked(pre, mid, j, def) && (exists|
                                mid2: Self,
                                r1: Result<u64, EffectError>,
                                r2: Result<u64, EffectError>,
                            |
                                #[trigger] Self::spec_commit_chain(
                                    mid,
                                    mid2,
                                    *final (self),
                                    def,
                                    e.owner.0,
                                    e.spec.level,
                                    r1,
                                    r2,
                                ))
                    }
                }
            }),
    {
        let j = match self.find_ability(ability) {
            Some(j) => j,
            None => {
                return false;
            },
        };
        if !self.abilities[j].spec.is_active || self.abilities[j].committed {
            return false;
        }
        let di = match self.ability_registry.find(self.abilities[j].spec.definition_id.as_str()) {
            Some(di) => di,
            None => {
                return false;
            },
        };
        proof {
            let k = self.ability_registry.spec_index_of(
                self.abilities@[j as int].spec.definition_id@,
            );
            assert(k == di);
        }
        let owner = self.abilities[j].owner.0;
        let level = self.abilities[j].spec.level;
        let cost_id: Option<String> = match &self.ability_registry.definitions[di].cost_effect {
            Some(c) => Some(c.clone()),
            None => None,
        };
        let cooldown_id: Option<String> = match &self.ability_registry.definitions[di].cooldown_effect {
            Some(c) => Some(c.clone()),
            None => None,
        };
        let cooldown_duration: Option<i64> = match &cooldown_id {
            Some(cid) => match self.effect_registry.find(cid.as_str()) {
                Some(ei) => Some(self.effect_registry.definitions[ei].duration_magnitude),
                None => None,
            },
            None => None,
        };
        self.abilities[j].committed = true;
        let inst = self.abilities[j].instance;
        if let Some(mut ai) = inst {
            ai.is_committed = true;
            self.abilities[j].instance = Some(ai);
        }
        match cooldown_duration {
            Some(d) => {
                self.abilities[j].cooldown = Some(AbilityCooldown::new(d));
            },
            None => {},
        }
        proof {
            self.lemma_wf_components(old(self));
            assert(Self::spec_commit_marked(
                *old(self),
                *self,
                j as int,
                old(self).ability_registry.definitions@[di as int],
            ));
        }
        let ghost defg = old(self).ability_registry.definitions@[di as int];
        let ghost pre = *old(self);
        let ghost jj = j as int;
        let ghost mid = *self;
        let ghost mut r1w: Result<u64, EffectError> = Ok(0u64);
        match cost_id {
            Some(cid) => {
                let cost_result = self.apply_effect(cid.as_str(), owner, None, level);
                proof {
                    r1w = cost_result;
                }
            },
            None => {},
        }
        let ghost mid2 = *self;
        let ghost mut r2w: Result<u64, EffectError> = Ok(0u64);
        match cooldown_id {
            Some(cid) => {
                let cooldown_result = self.apply_effect(cid.as_str(), owner, None, level);
                proof {
                    r2w = cooldown_result;
                }
            },
            None => {},
        }
        proof {
            assert(Self::spec_commit_chain(mid, mid2, *self, defg, owner, level, r1w, r2w));
            assert(Self::spec_commit_marked(pre, mid, jj, defg));
        }
        true
    }

    /// The two effect applications a commit performs: the cost effect from
    /// `mid` to `mid2`, then the cooldown effect from `mid2` to `post`;
    /// a missing effect id skips its step.
    pub open spec fn spec_commit_chain(
        mid: Self,
        mid2: Self,
        post: Self,
        def: AbilityDefinition,
        owner: u64,
        level: i32,
        r1: Result<u64, EffectError>,
        r2: Result<u64, EffectError>,
    ) -> bool {
        &&& (match def.cost_effect {
            Some(cid) => Self::spec_apply_effect_transition(mid, mid2, cid@, owner, None, level, r1),
            None => mid2 == mid,
        })
        &&& (match def.cooldown_effect {
            Some(cid) => Self::spec_apply_effect_transition(mid2, post, cid@, owner, None, level, r2),
            None => post == mid2,
        })
    }

    /// The granted ability right after commit marks it: the committed flags
    /// are set and the cooldown marker starts at the cooldown effect's
    /// duration (when that effect is registered); nothing else moves.
    pub open spec fn spec_commit_marked(pre: Self, mid: Self, j: int, def: AbilityDefinition) -> bool {
        let e = pre.abilities@[j];
        &&& mid.abilities@.len() == pre.abilities@.len()
        &&& forall|t: int|
            0 <= t < pre.abilities@.len() && t != j ==> mid.abilities@[t] == pre.abilities@[t]
        &&& ({
            let now = mid.abilities@[j];
            &&& now.id == e.id
            &&& now.owner == e.owner
            &&& now.spec == e.spec
            &&& now.state == e.state
            &&& now.committed
            &&& now.instance == (match e.instance {
                Some(ai) => Some(
                    ActiveAbilityInstance {
                        spec_entity: ai.spec_entity,
                        activation_time: ai.activation_time,
                        is_committed: true,
                    },
                ),
                None => Option::<ActiveAbilityInstance>::None,
            })
            &&& now.cooldown == (match def.cooldown_effect {
                Some(cid) => if pre.effect_registry.spec_has(cid@) {
                    Some(
                        AbilityCooldown {
                            remaining: pre.effect_registry.definitions@[pre.effect_registry.spec_index_of(
                                cid@,
                            )].duration_magnitude,
                            total: pre.effect_registry.definitions@[pre.effect_registry.spec_index_of(
                                cid@,
                            )].duration_magnitude,
                        },
                    )
                } else {
                    e.cooldown
                },
                None => e.cooldown,
            })
        })
        &&& mid.effect_registry == pre.effect_registry
        &&& mid.ability_registry == pre.ability_registry
        &&& mid.attributes == pre.attributes
        &&& mid.owner_tags == pre.owner_tags
        &&& mid.active_effects == pre.active_effects
        &&& mid.modifiers == pre.modifiers
        &&& mid.next_effect_id == pre.next_effect_id
        &&& mid.next_ability_id == pre.next_ability_id
        &&& mid.time == pre.time
    }

    /// Ends every ability that is currently active: despawns activation
    /// instances, clears the active flags and returns the displayed states
    /// to Ready.
    #[verifier::loop_isolation(false)]
    pub fn end_ability_system(&mut self)
        requires
            old(self).wf(),
        ensures
            final (self).wf(),
            final (self).abilities@.len() == old(self).abilities@.len(),
            forall|t: int|
                0 <= t < old(self).abilities@.len() ==> {
                    let prev = #[trigger] old(self).abilities@[t];
                    let now = final (self).abilities@[t];
                    if prev.spec.is_active && prev.state == AbilityState::Active {
                        Self::spec_entry_deactivated(prev, now)
                    } else {
                        now == prev
                    }
                },
            final (self).effect_registry == old(self).effect_registry,
            final (self).ability_registry == old(self).ability_registry,
            final (self).attributes == old(self).attributes,
            final (self).owner_tags == old(self).owner_tags,
            final (self).active_effects == old(self).active_effects,
            final (self).modifiers == old(self).modifiers,
            final (self).next_effect_id == old(self).next_effect_id,
            final (self).next_ability_id == old(self).next_ability_id,
            final (self).time == old(self).time,
    {
        let mut j: usize = 0;
        while j < self.abilities.len()
            invariant
                0 <= j <= old(self).abilities@.len(),
                self.abilities@.len() == old(self).abilities@.len(),
                self.effect_registry == old(self).effect_registry,
                self.ability_registry == old(self).ability_registry,
                self.attributes == old(self).attributes,
                self.owner_tags == old(self).owner_tags,
                self.active_effects == old(self).active_effects,
                self.modifiers == old(self).modifiers,
                self.next_effect_id == old(self).next_effect_id,
                self.next_ability_id == old(self).next_ability_id,
                self.time == old(self).time,
                forall|t: int|
                    j <= t < old(self).abilities@.len() ==> self.abilities@[t] == old(
                        self,
                    ).abilities@[t],
                forall|t: int|
                    0 <= t < j ==> {
                        let prev = #[trigger] old(self).abilities@[t];
                        let now = self.abilities@[t];
                        if prev.spec.is_active && prev.state == AbilityState::Active {
                            Self::spec_entry_deactivated(prev, now)
                        } else {
                            now == prev
                        }
                    },
            decreases old(self).abilities@.len() - j,
        {
            let active = self.abilities[j].spec.is_active;
            let shown_active = match self.abilities[j].state {
                AbilityState::Active => true,
                _ => false,
            };
            if active && shown_active {
                self.abilities[j].spec.is_active = false;
                self.abilities[j].state = AbilityState::Ready;
                self.abilities[j].instance = None;
            }
            j = j + 1;
        }
        proof {
            assert forall|k: int|
                0 <= k < self.active_effects@.len() implies match (
            #[trigger] self.active_effects@[k]).periodic {
                Some(p) => 0 < p.period && 0 < p.time_until_next <= p.period,
                None => true,
            } by {
                assert(old(self).active_effects@[k].id < old(self).next_effect_id);
                assert(self.active_effects@[k].periodic == old(self).active_effects@[k].periodic);
            }
            self.lemma_wf_components(old(self));
        }
    }

    /// The ids of the live effect instances on a target; query-helper
    /// spelling of `list_active_effects`.
    pub fn get_active_effects_on_target(&self, target: u64) -> (r: Vec<u64>)
        ensures
            r@ == Self::spec_effect_ids_on(self.active_effects@, target),
    {
        self.list_active_effects(target)
    }

    /// Whether the owner's tags now force an active ability to cancel.
    pub open spec fn spec_should_cancel(&self, e: AbilityEntry) -> bool {
        &&& e.spec.is_active
        &&& self.ability_registry.spec_has(e.spec.definition_id@)
        &&& ({
            let def = self.ability_registry.definitions@[self.ability_registry.spec_index_of(
                e.spec.definition_id@,
            )];
            exists|i: int|
                0 <= i < def.cancel_on_tags_added@.len() && self.spec_owner_has_tag(
                    e.owner.0,
                    def.cancel_on_tags_added@[i]@,
                )
        })
    }

    /// Cancels every active ability whose owner now holds one of its
    /// cancel-on-added tags, through the same path as ending it.
    #[verifier::loop_isolation(false)]
    pub fn cancel_abilities_by_tags_system(&mut self)
        requires
            old(self).wf(),
        ensures
            final (self).wf(),
            Self::spec_cancel_pass_transition(*old(self), *final (self)),
    {
        let mut j: usize = 0;
        while j < self.abilities.len()
            invariant
                0 <= j <= old(self).abilities@.len(),
                self.wf(),
                self.abilities@.len() == old(self).abilities@.len(),
                self.effect_registry == old(self).effect_registry,
                self.ability_registry == old(self).ability_registry,
                self.attributes == old(self).attributes,
                self.owner_tags == old(self).owner_tags,
                self.active_effects == old(self).active_effects,
                self.modifiers == old(self).modifiers,
                self.next_effect_id == old(self).next_effect_id,
                self.next_ability_id == old(self).next_ability_id,
                self.time == old(self).time,
                forall|t: int|
                    j <= t < old(self).abilities@.len() ==> self.abilities@[t] == old(
                        self,
                    ).abilities@[t],
                forall|t: int|
                    0 <= t < j ==> {
                        let prev = #[trigger] old(self).abilities@[t];
                        let now = self.abilities@[t];
                        if old(self).spec_should_cancel(prev) {
                            Self::spec_entry_deactivated(prev, now)
                        } else {
                            now == prev
                        }
                    },
            decreases old(self).abilities@.len() - j,
        {
            let mut cancel = false;
            if self.abilities[j].spec.is_active {
                match self.ability_registry.find(self.abilities[j].spec.definition_id.as_str()) {
                    Some(di) => {
                        proof {
                            let k = self.ability_registry.spec_index_of(
                                self.abilities@[j as int].spec.definition_id@,
                            );
                            assert(k == di);
                        }
                        let owner = self.abilities[j].owner.0;
                        let mut i: usize = 0;
                        while i < self.ability_registry.definitions[di].cancel_on_tags_added.len()
                            invariant
                                0 <= i <= old(self).ability_registry.definitions@[di as int].cancel_on_tags_added@.len(),
                                !cancel ==> forall|t: int|
                                    0 <= t < i ==> !self.spec_owner_has_tag(
                                        owner,
                                        old(self).ability_registry.definitions@[di as int].cancel_on_tags_added@[t]@,
                                    ),
                                cancel ==> exists|t: int|
                                    0 <= t < old(self).ability_registry.definitions@[di as int].cancel_on_tags_added@.len()
                                        && self.spec_owner_has_tag(
                                        owner,
                                        old(self).ability_registry.definitions@[di as int].cancel_on_tags_added@[t]@,
                                    ),
                            decreases old(self).ability_registry.definitions@[di as int].cancel_on_tags_added@.len()
                                - i,
                        {
                            if self.has_matching_tag(
                                owner,
                                &self.ability_registry.definitions[di].cancel_on_tags_added[i],
                            ) {
                                cancel = true;
                            }
                            i = i + 1;
                        }
                    },
                    None => {},
                }
            }
            if cancel {
                self.abilities[j].spec.is_active = false;
                self.abilities[j].state = AbilityState::Ready;
                self.abilities[j].instance = None;
            }
            j = j + 1;
            proof {
                assert forall|t: int|
                    0 <= t < self.active_effects@.len() implies match (
                #[trigger] self.active_effects@[t]).periodic {
                    Some(p) => 0 < p.period && 0 < p.time_until_next <= p.period,
                    None => true,
                } by {
                    assert(old(self).active_effects@[t].id < old(self).next_effect_id);
                    assert(self.active_effects@[t] == old(self).active_effects@[t]);
                }
                self.lemma_wf_components(old(self));
            }
        }
    }

    /// The displayed state the per-tick projection gives a granted ability:
    /// Active when live, else Cooldown while an unexpired cooldown marker
    /// exists, else Blocked when the owner's tags fail the activation
    /// requirements, else Ready. Pure projection: causes no transition.
    pub open spec fn spec_projected_state(&self, e: AbilityEntry) -> AbilityState {
        if e.spec.is_active {
            AbilityState::Active
        } else if e.cooldown matches Some(c) && c.remaining > 0 {
            AbilityState::Cooldown
        } else if self.ability_registry.spec_has(e.spec.definition_id@)
            && !self.spec_ability_tags_allow(
            self.ability_registry.definitions@[self.ability_registry.spec_index_of(
                e.spec.definition_id@,
            )],
            e.owner.0,
        ) {
            AbilityState::Blocked
        } else {
            AbilityState::Ready
        }
    }

    /// Recomputes every granted ability's displayed state from its active
    /// flag, its cooldown marker and the owner's tags.
    #[verifier::loop_isolation(false)]
    pub fn update_ability_states_system(&mut self)
        requires
            old(self).wf(),
        ensures
            final (self).wf(),
            Self::spec_states_transition(*old(self), *final (self)),
    {
        let mut j: usize = 0;
        while j < self.abilities.len()
            invariant
                0 <= j <= old(self).abilities@.len(),
                self.abilities@.len() == old(self).abilities@.len(),
                self.effect_registry == old(self).effect_registry,
                self.ability_registry == old(self).ability_registry,
                self.attributes == old(self).attributes,
                self.owner_tags == old(self).owner_tags,
                self.active_effects == old(self).active_effects,
                self.modifiers == old(self).modifiers,
                self.next_effect_id == old(self).next_effect_id,
                self.next_ability_id == old(self).next_ability_id,
                self.time == old(self).time,
                self.wf(),
                forall|t: int|
                    j <= t < old(self).abilities@.len() ==> self.abilities@[t] == old(
                        self,
                    ).abilities@[t],
                forall|t: int|
                    0 <= t < j ==> {
                        let prev = #[trigger] old(self).abilities@[t];
                        let now = self.abilities@[t];
                        now.id == prev.id && now.spec == prev.spec && now.owner == prev.owner
                            && now.instance == prev.instance && now.cooldown == prev.cooldown
                            && now.committed == prev.committed && now.state == old(
                            self,
                        ).spec_projected_state(prev)
                    },
            decreases old(self).abilities@.len() - j,
        {
            let new_state: AbilityState = if self.abilities[j].spec.is_active {
                AbilityState::Active
            } else {
                let on_cooldown = match &self.abilities[j].cooldown {
                    Some(c) => c.remaining > 0,
                    None => false,
                };
                if on_cooldown {
                    AbilityState::Cooldown
                } else {
                    match self.ability_registry.find(
                        self.abilities[j].spec.definition_id.as_str(),
                    ) {
                        Some(di) => {
                            proof {
                                let k = self.ability_registry.spec_index_of(
                                    self.abilities@[j as int].spec.definition_id@,
                                );
                                assert(k == di);
                            }
                            if !self.ability_tags_allow(di, self.abilities[j].owner.0) {
                                AbilityState::Blocked
                            } else {
                                AbilityState::Ready
                            }
                        },
                        None => AbilityState::Ready,
                    }
                }
            };
            proof {
                assert(self.abilities@[j as int] == old(self).abilities@[j as int]);
                assert(new_state == old(self).spec_projected_state(
                    old(self).abilities@[j as int],
                ));
            }
            self.abilities[j].state = new_state;
            j = j + 1;
        }
        proof {
            self.lemma_wf_components(old(self));
        }
    }

    /// Reads the displayed state of a granted ability.
    pub fn get_ability_state(&self, ability: u64) -> (r: Option<AbilityState>)
        requires
            self.wf(),
        ensures
            r == if self.spec_has_ability(ability) {
                Some(self.abilities@[self.spec_ability_index(ability)].state)
            } else {
                Option::<AbilityState>::None
            },
    {
        match self.find_ability(ability) {
            Some(j) => Some(self.abilities[j].state),
            None => None,
        }
    }

    /// Whether the notification list reports exactly the rows whose
    /// current value differs from the snapshot: one event per changed row,
    /// in row order, carrying the old and new values.
    pub open spec fn spec_events_match(
        before: Seq<i64>,
        rows: Seq<AttributeEntry>,
        events: Seq<AttributeChangedEvent>,
    ) -> bool {
        &&& forall|k1: int, k2: int|
            0 <= k1 < k2 < events.len() ==> events[k1].attribute < events[k2].attribute
        &&& forall|k: int|
            0 <= k < events.len() ==> {
                let ev = #[trigger] events[k];
                let t = ev.attribute as int;
                &&& 0 <= t < rows.len()
                &&& rows[t].data.current_value != before[t]
                &&& ev.owner == rows[t].owner
                &&& ev.attribute_name@ == rows[t].name@
                &&& ev.old_value == before[t]
                &&& ev.new_value == rows[t].data.current_value
            }
        &&& forall|t: int|
            0 <= t < rows.len() && (#[trigger] rows[t]).data.current_value != before[t]
                ==> exists|k: int| 0 <= k < events.len() && (#[trigger] events[k]).attribute as int
                == t
    }

    /// Takes a snapshot of every attribute's current value, in row order.
    pub fn snapshot_attribute_currents(&self) -> (r: Vec<i64>)
        ensures
            r@.len() == self.attributes.entries@.len(),
            forall|i: int|
                0 <= i < r@.len() ==> r@[i] == (#[trigger] self.attributes.entries@[i]).data.current_value,
    {
        let mut out: Vec<i64> = Vec::new();
        let mut i: usize = 0;
        while i < self.attributes.entries.len()
            invariant
                0 <= i <= self.attributes.entries@.len(),
                out@.len() == i,
                forall|t: int|
                    0 <= t < i ==> out@[t] == (
                    #[trigger] self.attributes.entries@[t]).data.current_value,
            decreases self.attributes.entries@.len() - i,
        {
            out.push(self.attributes.entries[i].data.current_value);
            i = i + 1;
        }
        out
    }

    /// Emits one change notification per attribute whose current value
    /// differs from the snapshot taken at the start of the tick:
    /// at-most-once per attribute per tick, not per individual modifier.
    #[verifier::loop_isolation(false)]
    pub fn trigger_attribute_change_events_system(&self, before: &Vec<i64>) -> (r: Vec<
        AttributeChangedEvent,
    >)
        requires
            before@.len() == self.attributes.entries@.len(),
        ensures
            Self::spec_events_match(before@, self.attributes.entries@, r@),
    {
        let mut out: Vec<AttributeChangedEvent> = Vec::new();
        let mut i: usize = 0;
        while i < self.attributes.entries.len()
            invariant
                0 <= i <= self.attributes.entries@.len(),
                forall|k1: int, k2: int|
                    0 <= k1 < k2 < out@.len() ==> out@[k1].attribute < out@[k2].attribute,
                forall|k: int|
                    0 <= k < out@.len() ==> {
                        let ev = #[trigger] out@[k];
                        let t = ev.attribute as int;
                        &&& 0 <= t < i
                        &&& self.attributes.entries@[t].data.current_value != before@[t]
                        &&& ev.owner == self.attributes.entries@[t].owner
                        &&& ev.attribute_name@ == self.attributes.entries@[t].name@
                        &&& ev.old_value == before@[t]
                        &&& ev.new_value == self.attributes.entries@[t].data.current_value
                    },
                forall|t: int|
                    0 <= t < i && (#[trigger] self.attributes.entries@[t]).data.current_value
                        != before@[t] ==> exists|k: int|
                        0 <= k < out@.len() && (#[trigger] out@[k]).attribute as int == t,
            decreases self.attributes.entries@.len() - i,
        {
            let ghost prev_out = out@;
            if self.attributes.entries[i].data.current_value != before[i] {
                let ev = AttributeChangedEvent {
                    owner: self.attributes.entries[i].owner,
                    attribute: i,
                    attribute_name: self.attributes.entries[i].name.as_str().to_owned(),
                    old_value: before[i],
                    new_value: self.attributes.entries[i].data.current_value,
                };
                out.push(ev);
            }
            proof {
                assert forall|t: int|
                    0 <= t < i + 1 && (#[trigger] self.attributes.entries@[t]).data.current_value
                        != before@[t] implies exists|k: int|
                    0 <= k < out@.len() && (#[trigger] out@[k]).attribute as int == t by {
                    if t < i {
                        let k = choose|k: int|
                            0 <= k < prev_out.len() && (#[trigger] prev_out[k]).attribute as int
                                == t;
                        assert(out@[k] == prev_out[k]);
                    } else {
                        assert((out@[out@.len() - 1]).attribute as int == t);
                    }
                }
                assert forall|k: int| 0 <= k < out@.len() implies {
                    let ev = #[trigger] out@[k];
                    let t = ev.attribute as int;
                    &&& 0 <= t < i + 1
                    &&& self.attributes.entries@[t].data.current_value != before@[t]
                    &&& ev.owner == self.attributes.entries@[t].owner
                    &&& ev.attribute_name@ == self.attributes.entries@[t].name@
                    &&& ev.old_value == before@[t]
                    &&& ev.new_value == self.attributes.entries@[t].data.current_value
                } by {
                    if k < prev_out.len() {
                        assert(out@[k] == prev_out[k]);
                    }
                }
            }
            i = i + 1;
        }
        out
    }

    /// The world after only the clock advanced by the tick's delta.
    pub open spec fn spec_clock_advanced(pre: Self, post: Self, dt: int) -> bool {
        &&& post.effect_registry == pre.effect_registry
        &&& post.ability_registry == pre.ability_registry
        &&& post.attributes == pre.attributes
        &&& post.owner_tags == pre.owner_tags
        &&& post.active_effects == pre.active_effects
        &&& post.modifiers == pre.modifiers
        &&& post.abilities == pre.abilities
        &&& post.next_effect_id == pre.next_effect_id
        &&& post.next_ability_id == pre.next_ability_id
        &&& post.time as int == crate::math::spec_sat_add(pre.time as int, dt)
    }

    /// The per-pass transitions of one tick, chained through intermediate
    /// states in the mandated order: duration timers, periodic executions,
    /// expiry removal, instant removal, aggregation, clamping, ability
    /// cooldowns, tag cancellation, state projection, then the clock. In
    /// particular, expiry removal comes before aggregation and clamping
    /// comes after it.
    pub open spec fn spec_tick_chain(
        pre: Self,
        s1: Self,
        s2: Self,
        s3: Self,
        s4: Self,
        s5: Self,
        s6: Self,
        s7: Self,
        s8: Self,
        s9: Self,
        post: Self,
        dt: int,
    ) -> bool {
        &&& Self::spec_durations_transition(pre, s1, dt)
        &&& Self::spec_periodic_transition(s1, s2, dt)
        &&& Self::spec_removal_transition(s2, s3, false)
        &&& Self::spec_removal_transition(s3, s4, true)
        &&& Self::spec_aggregate_pass_transition(s4, s5)
        &&& Self::spec_clamp_pass_transition(s5, s6)
        &&& Self::spec_cooldowns_transition(s6, s7, dt)
        &&& Self::spec_cancel_pass_transition(s7, s8)
        &&& Self::spec_states_transition(s8, s9)
        &&& Self::spec_clock_advanced(s9, post, dt)
    }

    /// What one tick does to the world: some chain of intermediate states
    /// runs the nine passes in the mandated order and then advances the
    /// clock.
    pub open spec fn spec_tick_transition(pre: Self, post: Self, dt: int) -> bool {
        exists|
            s1: Self,
            s2: Self,
            s3: Self,
            s4: Self,
            s5: Self,
            s6: Self,
            s7: Self,
            s8: Self,
            s9: Self,
        |
            #[trigger] Self::spec_tick_chain(pre, s1, s2, s3, s4, s5, s6, s7, s8, s9, post, dt)
    }

    /// The effect phases of one tick, chained in order: duration timers,
    /// periodic executions, expiry removal, instant removal, aggregation.
    pub open spec fn spec_effect_phase_chain(
        pre: Self,
        s1: Self,
        s2: Self,
        s3: Self,
        s4: Self,
        post: Self,
        dt: int,
    ) -> bool {
        &&& Self::spec_durations_transition(pre, s1, dt)
        &&& Self::spec_periodic_transition(s1, s2, dt)
        &&& Self::spec_removal_transition(s2, s3, false)
        &&& Self::spec_removal_transition(s3, s4, true)
        &&& Self::spec_aggregate_pass_transition(s4, post)
    }

    /// What the effect phases do to the world, run in their mandated order.
    pub open spec fn spec_effect_phases_transition(pre: Self, post: Self, dt: int) -> bool {
        exists|s1: Self, s2: Self, s3: Self, s4: Self|
            #[trigger] Self::spec_effect_phase_chain(pre, s1, s2, s3, s4, post, dt)
    }

    /// The ability phases of one tick, chained in order: cooldowns, tag
    /// cancellation, state projection.
    pub open spec fn spec_ability_phase_chain(pre: Self, s1: Self, s2: Self, post: Self, dt: int) -> bool {
        &&& Self::spec_cooldowns_transition(pre, s1, dt)
        &&& Self::spec_cancel_pass_transition(s1, s2)
        &&& Self::spec_states_transition(s2, post)
    }

    /// What the ability phases do to the world, run in their mandated order.
    pub open spec fn spec_ability_phases_transition(pre: Self, post: Self, dt: int) -> bool {
        exists|s1: Self, s2: Self|
            #[trigger] Self::spec_ability_phase_chain(pre, s1, s2, post, dt)
    }

    /// Runs one simulation tick over the mandated pass order: advance
    /// duration timers, fire periodic executions, remove expired and spent
    /// instant instances, aggregate modifiers into current values, clamp,
    /// tick ability cooldowns, cancel tag-cancelled abilities, recompute
    /// displayed ability states, advance the clock, and report which
    /// attribute values changed since the start of the tick.
    #[verifier::rlimit(100)]
    pub fn tick(&mut self, dt: i64) -> (events: Vec<AttributeChangedEvent>)
        requires
            old(self).wf(),
            0 <= dt,
        ensures
            final (self).wf(),
            final (self).attributes.spec_all_clamped(),
            final (self).attributes.entries@.len() == old(self).attributes.entries@.len(),
            forall|j: int|
                0 <= j < final (self).active_effects@.len() ==> match (#[trigger] final (self).active_effects@[j]).duration {
                    Some(d) => d.remaining > 0,
                    None => true,
                },
            final (self).time as int == crate::math::spec_sat_add(old(self).time as int, dt as int),
            Self::spec_tick_transition(*old(self), *final (self), dt as int),
            Self::spec_events_match(
                Seq::new(
                    old(self).attributes.entries@.len(),
                    |i: int| old(self).attributes.entries@[i].data.current_value,
                ),
                final (self).attributes.entries@,
                events@,
            ),
    {
        let before = self.snapshot_attribute_currents();
        proof {
            assert(before@ =~= Seq::new(
                old(self).attributes.entries@.len(),
                |i: int| old(self).attributes.entries@[i].data.current_value,
            ));
        }
        self.update_effect_durations_system(dt);
        let ghost after_durations = *self;
        self.execute_periodic_effects_system(dt);
        let ghost after_periodic = *self;
        self.remove_expired_effects_system();
        let ghost after_expiry = *self;
        proof {
            Self::lemma_kept_membership(after_periodic.active_effects@, false);
            assert forall|j: int|
                0 <= j < after_expiry.active_effects@.len() implies match (
            #[trigger] after_expiry.active_effects@[j]).duration {
                Some(d) => d.remaining > 0,
                None => true,
            } by {
                let t = choose|t: int|
                    0 <= t < after_periodic.active_effects@.len()
                        && #[trigger] after_expiry.active_effects@[j]
                        == after_periodic.active_effects@[t] && !Self::spec_effect_finished(
                        after_periodic.active_effects@[t],
                        false,
                    );
            }
        }
        self.remove_instant_effects_system();
        let ghost after_removal = *self;
        proof {
            Self::lemma_kept_membership(after_expiry.active_effects@, true);
            assert forall|j: int|
                0 <= j < after_removal.active_effects@.len() implies match (
            #[trigger] after_removal.active_effects@[j]).duration {
                Some(d) => d.remaining > 0,
                None => true,
            } by {
                let t = choose|t: int|
                    0 <= t < after_expiry.active_effects@.len()
                        && #[trigger] after_removal.active_effects@[j]
                        == after_expiry.active_effects@[t] && !Self::spec_effect_finished(
                        after_expiry.active_effects@[t],
                        true,
                    );
            }
        }
        self.aggregate_attribute_modifiers_system();
        let ghost after_aggregate = *self;
        self.clamp_attributes_system();
        let ghost after_clamp = *self;
        self.update_ability_cooldowns_system(dt);
        let ghost after_cooldowns = *self;
        self.cancel_abilities_by_tags_system();
        let ghost after_cancel = *self;
        self.update_ability_states_system();
        let ghost after_states = *self;
        self.time = crate::math::sat_add(self.time, dt);
        proof {
            assert(Self::spec_tick_chain(
                *old(self),
                after_durations,
                after_periodic,
                after_expiry,
                after_removal,
                after_aggregate,
                after_clamp,
                after_cooldowns,
                after_cancel,
                after_states,
                *self,
                dt as int,
            ));
        }
        proof {
            assert forall|j: int|
                0 <= j < self.active_effects@.len() implies match (
            #[trigger] self.active_effects@[j]).duration {
                Some(d) => d.remaining > 0,
                None => true,
            } by {
                assert(self.active_effects@[j].duration
                    == after_removal.active_effects@[j].duration);
            }
        }
        let events = self.trigger_attribute_change_events_system(&before);
        events
    }

    /// The ids of the live effect instances on a target, in table order.
    pub open spec fn spec_effect_ids_on(s: Seq<ActiveEffectEntry>, target: u64) -> Seq<u64>
        decreases s.len(),
    {
        if s.len() == 0 {
            Seq::empty()
        } else {
            let rest = Self::spec_effect_ids_on(s.drop_last(), target);
            if s.last().target.0 == target {
                rest.push(s.last().id)
            } else {
                rest
            }
        }
    }

    /// Lists the ids of the live effect instances on a target, in table
    /// order.
    pub fn list_active_effects(&self, target: u64) -> (r: Vec<u64>)
        ensures
            r@ == Self::spec_effect_ids_on(self.active_effects@, target),
    {
        let mut out: Vec<u64> = Vec::new();
        let mut j: usize = 0;
        while j < self.active_effects.len()
            invariant
                0 <= j <= self.active_effects@.len(),
                out@ == Self::spec_effect_ids_on(self.active_effects@.take(j as int), target),
            decreases self.active_effects@.len() - j,
        {
            proof {
                assert(self.active_effects@.take(j + 1).drop_last() =~= self.active_effects@.take(
                    j as int,
                ));
                assert(self.active_effects@.take(j + 1).last() == self.active_effects@[j as int]);
            }
            if self.active_effects[j].target.0 == target {
                out.push(self.active_effects[j].id);
            }
            j = j + 1;
        }
        proof {
            assert(self.active_effects@.take(self.active_effects@.len() as int)
                =~= self.active_effects@);
        }
        out
    }

    /// How many live effect instances sit on a target.
    pub open spec fn spec_count_effects_on(s: Seq<ActiveEffectEntry>, target: u64) -> int
        decreases s.len(),
    {
        if s.len() == 0 {
            0
        } else {
            Self::spec_count_effects_on(s.drop_last(), target) + (if s.last().target.0 == target {
                1int
            } else {
                0int
            })
        }
    }

    /// The ids of the live instances of one definition on a target, in
    /// table order.
    pub open spec fn spec_effect_ids_of(s: Seq<ActiveEffectEntry>, target: u64, id: Seq<char>) -> Seq<u64>
        decreases s.len(),
    {
        if s.len() == 0 {
            Seq::empty()
        } else {
            let rest = Self::spec_effect_ids_of(s.drop_last(), target, id);
            if spec_is_instance_of(s.last(), target, id) {
                rest.push(s.last().id)
            } else {
                rest
            }
        }
    }

    /// Lists the live instances of one definition on a target.
    pub fn find_effects_by_definition(&self, target: u64, definition_id: &str) -> (r: Vec<u64>)
        ensures
            r@ == Self::spec_effect_ids_of(self.active_effects@, target, definition_id@),
    {
        let mut out: Vec<u64> = Vec::new();
        let mut j: usize = 0;
        while j < self.active_effects.len()
            invariant
                0 <= j <= self.active_effects@.len(),
                out@ == Self::spec_effect_ids_of(
                    self.active_effects@.take(j as int),
                    target,
                    definition_id@,
                ),
            decreases self.active_effects@.len() - j,
        {
            proof {
                assert(self.active_effects@.take(j + 1).drop_last() =~= self.active_effects@.take(
                    j as int,
                ));
                assert(self.active_effects@.take(j + 1).last() == self.active_effects@[j as int]);
            }
            if self.active_effects[j].target.0 == target && crate::tags::str_eq(
                self.active_effects[j].effect.definition_id.as_str(),
                definition_id,
            ) {
                out.push(self.active_effects[j].id);
            }
            j = j + 1;
        }
        proof {
            assert(self.active_effects@.take(self.active_effects@.len() as int)
                =~= self.active_effects@);
        }
        out
    }

    /// Whether a target carries any live effect instance.
    pub fn has_active_effects(&self, target: u64) -> (r: bool)
        ensures
            r == exists|j: int|
                0 <= j < self.active_effects@.len()
                    && (#[trigger] self.active_effects@[j]).target.0 == target,
    {
        let mut j: usize = 0;
        while j < self.active_effects.len()
            invariant
                0 <= j <= self.active_effects@.len(),
                forall|t: int| 0 <= t < j ==> (#[trigger] self.active_effects@[t]).target.0 != target,
            decreases self.active_effects@.len() - j,
        {
            if self.active_effects[j].target.0 == target {
                return true;
            }
            j = j + 1;
        }
        false
    }

    /// How many live effect instances sit on a target.
    pub fn count_active_effects(&self, target: u64) -> (r: usize)
        ensures
            r as int == Self::spec_count_effects_on(self.active_effects@, target),
    {
        let mut count: usize = 0;
        let mut j: usize = 0;
        while j < self.active_effects.len()
            invariant
                0 <= j <= self.active_effects@.len(),
                count as int == Self::spec_count_effects_on(
                    self.active_effects@.take(j as int),
                    target,
                ),
                count <= j,
            decreases self.active_effects@.len() - j,
        {
            proof {
                assert(self.active_effects@.take(j + 1).drop_last() =~= self.active_effects@.take(
                    j as int,
                ));
                assert(self.active_effects@.take(j + 1).last() == self.active_effects@[j as int]);
            }
            if self.active_effects[j].target.0 == target {
                count = count + 1;
            }
            j = j + 1;
        }
        proof {
            assert(self.active_effects@.take(self.active_effects@.len() as int)
                =~= self.active_effects@);
        }
        count
    }

    /// How many granted abilities an owner holds.
    pub open spec fn spec_count_abilities_of(s: Seq<AbilityEntry>, owner: u64) -> int
        decreases s.len(),
    {
        if s.len() == 0 {
            0
        } else {
            Self::spec_count_abilities_of(s.drop_last(), owner) + (if s.last().owner.0 == owner {
                1int
            } else {
                0int
            })
        }
    }

    /// The grant ids of the abilities an owner holds, in table order.
    pub open spec fn spec_ability_ids_of(s: Seq<AbilityEntry>, owner: u64) -> Seq<u64>
        decreases s.len(),
    {
        if s.len() == 0 {
            Seq::empty()
        } else {
            let rest = Self::spec_ability_ids_of(s.drop_last(), owner);
            if s.last().owner.0 == owner {
                rest.push(s.last().id)
            } else {
                rest
            }
        }
    }

    /// Lists the abilities an owner holds, in table order.
    pub fn get_owned_abilities(&self, owner: u64) -> (r: Vec<u64>)
        ensures
            r@ == Self::spec_ability_ids_of(self.abilities@, owner),
    {
        let mut out: Vec<u64> = Vec::new();
        let mut j: usize = 0;
        while j < self.abilities.len()
            invariant
                0 <= j <= self.abilities@.len(),
                out@ == Self::spec_ability_ids_of(self.abilities@.take(j as int), owner),
            decreases self.abilities@.len() - j,
        {
            proof {
                assert(self.abilities@.take(j + 1).drop_last() =~= self.abilities@.take(j as int));
                assert(self.abilities@.take(j + 1).last() == self.abilities@[j as int]);
            }
            if self.abilities[j].owner.0 == owner {
                out.push(self.abilities[j].id);
            }
            j = j + 1;
        }
        proof {
            assert(self.abilities@.take(self.abilities@.len() as int) =~= self.abilities@);
        }
        out
    }

    /// The first granted ability of one definition an owner holds.
    pub fn find_ability_by_definition(&self, owner: u64, definition_id: &str) -> (r: Option<u64>)
        ensures
            match r {
                Some(id) => exists|j: int|
                    0 <= j < self.abilities@.len() && (#[trigger] self.abilities@[j]).id == id
                        && self.abilities@[j].owner.0 == owner
                        && self.abilities@[j].spec.definition_id@ == definition_id@,
                None => forall|j: int|
                    0 <= j < self.abilities@.len() ==> !((#[trigger] self.abilities@[j]).owner.0
                        == owner && self.abilities@[j].spec.definition_id@ == definition_id@),
            },
    {
        let mut j: usize = 0;
        while j < self.abilities.len()
            invariant
                0 <= j <= self.abilities@.len(),
                forall|t: int|
                    0 <= t < j ==> !((#[trigger] self.abilities@[t]).owner.0 == owner
                        && self.abilities@[t].spec.definition_id@ == definition_id@),
            decreases self.abilities@.len() - j,
        {
            if self.abilities[j].owner.0 == owner && crate::tags::str_eq(
                self.abilities[j].spec.definition_id.as_str(),
                definition_id,
            ) {
                return Some(self.abilities[j].id);
            }
            j = j + 1;
        }
        None
    }

    /// Whether an owner holds any granted ability.
    pub fn has_abilities(&self, owner: u64) -> (r: bool)
        ensures
            r == exists|j: int|
                0 <= j < self.abilities@.len() && (#[trigger] self.abilities@[j]).owner.0 == owner,
    {
        let mut j: usize = 0;
        while j < self.abilities.len()
            invariant
                0 <= j <= self.abilities@.len(),
                forall|t: int| 0 <= t < j ==> (#[trigger] self.abilities@[t]).owner.0 != owner,
            decreases self.abilities@.len() - j,
        {
            if self.abilities[j].owner.0 == owner {
                return true;
            }
            j = j + 1;
        }
        false
    }

    /// How many granted abilities an owner holds.
    pub fn count_abilities(&self, owner: u64) -> (r: usize)
        ensures
            r as int == Self::spec_count_abilities_of(self.abilities@, owner),
    {
        let mut count: usize = 0;
        let mut j: usize = 0;
        while j < self.abilities.len()
            invariant
                0 <= j <= self.abilities@.len(),
                count as int == Self::spec_count_abilities_of(self.abilities@.take(j as int), owner),
                count <= j,
            decreases self.abilities@.len() - j,
        {
            proof {
                assert(self.abilities@.take(j + 1).drop_last() =~= self.abilities@.take(j as int));
                assert(self.abilities@.take(j + 1).last() == self.abilities@[j as int]);
            }
            if self.abilities[j].owner.0 == owner {
                count = count + 1;
            }
            j = j + 1;
        }
        proof {
            assert(self.abilities@.take(self.abilities@.len() as int) =~= self.abilities@);
        }
        count
    }

    /// Reads the current value of an owner's attribute.
    pub fn get_attribute_current(&self, owner: u64, name: &str) -> (r: Option<i64>)
        requires
            self.wf(),
        ensures
            r == match self.attributes.spec_lookup(owner, name@) {
                Some(d) => Some(d.current_value),
                None => None,
            },
    {
        self.attributes.get_current(owner, name)
    }
}

} // verus!
