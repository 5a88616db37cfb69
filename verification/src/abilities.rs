//! Ability definitions, granted ability specs, cooldowns and ability state.

use vstd::prelude::*;

use crate::math::FP_SCALE;
use crate::math::div_scaled;
use crate::math::sat_sub;
use crate::math::spec_div_scaled;
use crate::math::spec_sat_sub;
use crate::tags::GameplayTag;
use crate::tags::GameplayTagCountContainer;
use crate::tags::str_eq;

verus! {

/// How ability instances are created and managed.
#[derive(Debug, Clone, Copy, PartialEq, Eq, Structural, Hash)]
pub enum InstancingPolicy {
    /// Ability is not instanced. The spec itself is used for activation.
    NonInstanced,
    /// A new instance is created per execution.
    InstancedPerExecution,
    /// A single instance is created per actor.
    InstancedPerActor,
}

/// Where the ability executes in a networked environment.
///
/// For single-player simulations this is informational only.
#[derive(Debug, Clone, Copy, PartialEq, Eq, Structural, Hash)]
pub enum NetExecutionPolicy {
    /// Execute on local client only.
    LocalOnly,
    /// Execute on server only.
    ServerOnly,
    /// Execute on both client and server.
    LocalPredicted,
}

/// Ability definition: the immutable template for granting abilities.
#[derive(Debug)]
pub struct AbilityDefinition {
    /// Unique identifier for this ability.
    pub id: String,
    /// Instancing policy.
    pub instancing_policy: InstancingPolicy,
    /// Net execution policy (for future networking support).
    pub net_execution_policy: NetExecutionPolicy,
    /// Effect id to apply as cost when the ability is committed.
    pub cost_effect: Option<String>,
    /// Effect id to apply as cooldown when the ability is committed.
    pub cooldown_effect: Option<String>,
    /// Tags granted to the owner while this ability is active.
    pub activation_owned_tags: Vec<GameplayTag>,
    /// Tags required on the owner to activate this ability.
    pub activation_required_tags: Vec<GameplayTag>,
    /// Tags that block activation if present on the owner.
    pub activation_blocked_tags: Vec<GameplayTag>,
    /// Tags of abilities to cancel when this ability activates.
    pub cancel_abilities_with_tags: Vec<GameplayTag>,
    /// Tags that, if added to the owner, will cancel this ability.
    pub cancel_on_tags_added: Vec<GameplayTag>,
}

impl AbilityDefinition {
    /// Creates a new ability definition with default policies and no cost,
    /// cooldown or tags.
    pub fn new(id: &str) -> (d: Self)
        ensures
            d.id@ == id@,
            d.instancing_policy == InstancingPolicy::InstancedPerExecution,
            d.net_execution_policy == NetExecutionPolicy::LocalOnly,
            d.cost_effect is None,
            d.cooldown_effect is None,
            d.activation_owned_tags@.len() == 0,
            d.activation_required_tags@.len() == 0,
            d.activation_blocked_tags@.len() == 0,
            d.cancel_abilities_with_tags@.len() == 0,
            d.cancel_on_tags_added@.len() == 0,
    {
        AbilityDefinition {
            id: id.to_owned(),
            instancing_policy: InstancingPolicy::InstancedPerExecution,
            net_execution_policy: NetExecutionPolicy::LocalOnly,
            cost_effect: None,
            cooldown_effect: None,
            activation_owned_tags: Vec::new(),
            activation_required_tags: Vec::new(),
            activation_blocked_tags: Vec::new(),
            cancel_abilities_with_tags: Vec::new(),
            cancel_on_tags_added: Vec::new(),
        }
    }

    /// Sets the instancing policy.
    pub fn with_instancing_policy(self, policy: InstancingPolicy) -> (d: Self)
        ensures
            d == (AbilityDefinition { instancing_policy: policy, ..self }),
    {
        AbilityDefinition { instancing_policy: policy, ..self }
    }

    /// Sets the net execution policy.
    pub fn with_net_execution_policy(self, policy: NetExecutionPolicy) -> (d: Self)
        ensures
            d == (AbilityDefinition { net_execution_policy: policy, ..self }),
    {
        AbilityDefinition { net_execution_policy: policy, ..self }
    }

    /// Sets the cost effect.
    pub fn with_cost_effect(self, effect_id: &str) -> (d: Self)
        ensures
            d.cost_effect matches Some(c) && c@ == effect_id@,
            d.id@ == self.id@,
            d.instancing_policy == self.instancing_policy,
            d.net_execution_policy == self.net_execution_policy,
            d.cooldown_effect == self.cooldown_effect,
            d.activation_owned_tags@ == self.activation_owned_tags@,
            d.activation_required_tags@ == self.activation_required_tags@,
            d.activation_blocked_tags@ == self.activation_blocked_tags@,
            d.cancel_abilities_with_tags@ == self.cancel_abilities_with_tags@,
            d.cancel_on_tags_added@ == self.cancel_on_tags_added@,
    {
        AbilityDefinition { cost_effect: Some(effect_id.to_owned()), ..self }
    }

    /// Sets the cooldown effect.
    pub fn with_cooldown_effect(self, effect_id: &str) -> (d: Self)
        ensures
            d.cooldown_effect matches Some(c) && c@ == effect_id@,
            d.id@ == self.id@,
            d.instancing_policy == self.instancing_policy,
            d.net_execution_policy == self.net_execution_policy,
            d.cost_effect == self.cost_effect,
            d.activation_owned_tags@ == self.activation_owned_tags@,
            d.activation_required_tags@ == self.activation_required_tags@,
            d.activation_blocked_tags@ == self.activation_blocked_tags@,
            d.cancel_abilities_with_tags@ == self.cancel_abilities_with_tags@,
            d.cancel_on_tags_added@ == self.cancel_on_tags_added@,
    {
        AbilityDefinition { cooldown_effect: Some(effect_id.to_owned()), ..self }
    }

    /// Adds an activation owned tag.
    pub fn add_activation_owned_tag(self, tag: GameplayTag) -> (d: Self)
        ensures
            d.activation_owned_tags@ == self.activation_owned_tags@.push(tag),
            d.id@ == self.id@,
            d.instancing_policy == self.instancing_policy,
            d.net_execution_policy == self.net_execution_policy,
            d.cost_effect == self.cost_effect,
            d.cooldown_effect == self.cooldown_effect,
            d.activation_required_tags@ == self.activation_required_tags@,
            d.activation_blocked_tags@ == self.activation_blocked_tags@,
            d.cancel_abilities_with_tags@ == self.cancel_abilities_with_tags@,
            d.cancel_on_tags_added@ == self.cancel_on_tags_added@,
    {
        let mut out = self;
        out.activation_owned_tags.push(tag);
        out
    }

    /// Adds an activation required tag.
    pub fn add_activation_required_tag(self, tag: GameplayTag) -> (d: Self)
        ensures
            d.activation_required_tags@ == self.activation_required_tags@.push(tag),
            d.id@ == self.id@,
            d.instancing_policy == self.instancing_policy,
            d.net_execution_policy == self.net_execution_policy,
            d.cost_effect == self.cost_effect,
            d.cooldown_effect == self.cooldown_effect,
            d.activation_owned_tags@ == self.activation_owned_tags@,
            d.activation_blocked_tags@ == self.activation_blocked_tags@,
            d.cancel_abilities_with_tags@ == self.cancel_abilities_with_tags@,
            d.cancel_on_tags_added@ == self.cancel_on_tags_added@,
    {
        let mut out = self;
        out.activation_required_tags.push(tag);
        out
    }

    /// Adds an activation blocked tag.
    pub fn add_activation_blocked_tag(self, tag: GameplayTag) -> (d: Self)
        ensures
            d.activation_blocked_tags@ == self.activation_blocked_tags@.push(tag),
            d.id@ == self.id@,
            d.instancing_policy == self.instancing_policy,
            d.net_execution_policy == self.net_execution_policy,
            d.cost_effect == self.cost_effect,
            d.cooldown_effect == self.cooldown_effect,
            d.activation_owned_tags@ == self.activation_owned_tags@,
            d.activation_required_tags@ == self.activation_required_tags@,
            d.cancel_abilities_with_tags@ == self.cancel_abilities_with_tags@,
            d.cancel_on_tags_added@ == self.cancel_on_tags_added@,
    {
        let mut out = self;
        out.activation_blocked_tags.push(tag);
        out
    }

    /// Adds a tag that will cancel abilities when this ability activates.
    pub fn add_cancel_abilities_with_tag(self, tag: GameplayTag) -> (d: Self)
        ensures
            d.cancel_abilities_with_tags@ == self.cancel_abilities_with_tags@.push(tag),
            d.id@ == self.id@,
            d.instancing_policy == self.instancing_policy,
            d.net_execution_policy == self.net_execution_policy,
            d.cost_effect == self.cost_effect,
            d.cooldown_effect == self.cooldown_effect,
            d.activation_owned_tags@ == self.activation_owned_tags@,
            d.activation_required_tags@ == self.activation_required_tags@,
            d.activation_blocked_tags@ == self.activation_blocked_tags@,
            d.cancel_on_tags_added@ == self.cancel_on_tags_added@,
    {
        let mut out = self;
        out.cancel_abilities_with_tags.push(tag);
        out
    }

    /// Adds a tag that will cancel this ability if added to the owner.
    pub fn add_cancel_on_tag_added(self, tag: GameplayTag) -> (d: Self)
        ensures
            d.cancel_on_tags_added@ == self.cancel_on_tags_added@.push(tag),
            d.id@ == self.id@,
            d.instancing_policy == self.instancing_policy,
            d.net_execution_policy == self.net_execution_policy,
            d.cost_effect == self.cost_effect,
            d.cooldown_effect == self.cooldown_effect,
            d.activation_owned_tags@ == self.activation_owned_tags@,
            d.activation_required_tags@ == self.activation_required_tags@,
            d.activation_blocked_tags@ == self.activation_blocked_tags@,
            d.cancel_abilities_with_tags@ == self.cancel_abilities_with_tags@,
    {
        let mut out = self;
        out.cancel_on_tags_added.push(tag);
        out
    }
}

/// Registry of all ability definitions, keyed by id.
#[derive(Debug)]
pub struct AbilityRegistry {
    /// The registered definitions; ids are unique.
    pub definitions: Vec<AbilityDefinition>,
}

impl AbilityRegistry {
    /// Ids are unique.
    pub open spec fn wf(&self) -> bool {
        forall|i: int, j: int|
            0 <= i < j < self.definitions@.len() ==> self.definitions@[i].id@
                != self.definitions@[j].id@
    }

    /// Whether a definition with the id is registered.
    pub open spec fn spec_has(&self, id: Seq<char>) -> bool {
        exists|i: int| 0 <= i < self.definitions@.len() && self.definitions@[i].id@ == id
    }

    /// The index of the definition with the id.
    pub open spec fn spec_index_of(&self, id: Seq<char>) -> int {
        choose|i: int| 0 <= i < self.definitions@.len() && self.definitions@[i].id@ == id
    }

    /// Creates a new empty registry.
    pub fn new() -> (r: Self)
        ensures
            r.definitions@.len() == 0,
            r.wf(),
    {
        AbilityRegistry { definitions: Vec::new() }
    }

    /// Finds the index of the definition with the given id.
    pub(crate) fn find(&self, id: &str) -> (r: Option<usize>)
        ensures
            match r {
                Some(i) => 0 <= i < self.definitions@.len() && self.definitions@[i as int].id@
                    == id@,
                None => !self.spec_has(id@),
            },
    {
        let mut i: usize = 0;
        while i < self.definitions.len()
            invariant
                0 <= i <= self.definitions@.len(),
                forall|j: int| 0 <= j < i ==> self.definitions@[j].id@ != id@,
            decreases self.definitions@.len() - i,
        {
            if str_eq(self.definitions[i].id.as_str(), id) {
                return Some(i);
            }
            i = i + 1;
        }
        None
    }

    /// Registers an ability definition, overwriting any existing definition
    /// with the same id (last write wins, no error).
    pub fn register(&mut self, definition: AbilityDefinition)
        requires
            old(self).wf(),
        ensures
            final (self).wf(),
            final (self).spec_has(definition.id@),
            final (self).definitions@[final (self).spec_index_of(definition.id@)] == definition,
            forall|other: Seq<char>|
                other != definition.id@ ==> (final (self).spec_has(other) == old(self).spec_has(
                    other,
                ) && (old(self).spec_has(other) ==> final (self).definitions@[final (self).spec_index_of(
                    other,
                )] == old(self).definitions@[old(self).spec_index_of(other)])),
    {
        let ghost id_view = definition.id@;
        match self.find(definition.id.as_str()) {
            Some(i) => {
                self.definitions[i] = definition;
                proof {
                    assert(forall|j: int|
                        0 <= j < self.definitions@.len() && j != i ==> self.definitions@[j] == old(
                            self,
                        ).definitions@[j]);
                    assert(self.definitions@[i as int].id@ == id_view);
                    self.lemma_register_frame(old(self), id_view, i as int);
                }
            },
            None => {
                self.definitions.push(definition);
                proof {
                    let last = self.definitions@.len() - 1;
                    assert(self.definitions@[last].id@ == id_view);
                    self.lemma_register_frame(old(self), id_view, last);
                }
            },
        }
    }

    /// After changing or adding only the definition of one id, every other
    /// id still resolves as before.
    proof fn lemma_register_frame(&self, prev: &Self, id: Seq<char>, at: int)
        requires
            prev.wf(),
            0 <= at < self.definitions@.len(),
            self.definitions@.len() == prev.definitions@.len() || self.definitions@.len()
                == prev.definitions@.len() + 1,
            self.definitions@[at].id@ == id,
            forall|j: int|
                0 <= j < self.definitions@.len() && j != at ==> j < prev.definitions@.len()
                    && self.definitions@[j] == prev.definitions@[j],
            at < prev.definitions@.len() ==> prev.definitions@[at].id@ == id,
            at >= prev.definitions@.len() ==> !prev.spec_has(id),
        ensures
            self.wf(),
            self.spec_has(id),
            self.definitions@[self.spec_index_of(id)] == self.definitions@[at],
            forall|other: Seq<char>|
                other != id ==> (self.spec_has(other) == prev.spec_has(other) && (prev.spec_has(
                    other,
                ) ==> self.definitions@[self.spec_index_of(other)]
                    == prev.definitions@[prev.spec_index_of(other)])),
    {
        assert(self.wf()) by {
            assert(forall|j: int|
                0 <= j < self.definitions@.len() && j != at ==> self.definitions@[j].id@ == prev
                    .definitions@[j].id@);
        }
        assert(self.spec_has(id));
        let k = self.spec_index_of(id);
        assert(k == at);
        assert forall|other: Seq<char>| other != id implies (self.spec_has(other) == prev.spec_has(
            other,
        ) && (prev.spec_has(other) ==> self.definitions@[self.spec_index_of(other)]
            == prev.definitions@[prev.spec_index_of(other)])) by {
            if self.spec_has(other) {
                let i = self.spec_index_of(other);
                assert(i != at);
                assert(prev.definitions@[i] == self.definitions@[i]);
                assert(prev.spec_has(other));
            }
            if prev.spec_has(other) {
                let i = prev.spec_index_of(other);
                assert(i != at);
                assert(self.definitions@[i] == prev.definitions@[i]);
                assert(self.spec_has(other));
                let i2 = self.spec_index_of(other);
                assert(i2 != at);
                assert(prev.definitions@[i2].id@ == other);
                assert(i2 == i);
            }
        }
    }

    /// Gets an ability definition by id.
    pub fn get(&self, id: &str) -> (r: Option<&AbilityDefinition>)
        requires
            self.wf(),
        ensures
            match r {
                Some(d) => self.spec_has(id@) && *d == self.definitions@[self.spec_index_of(id@)],
                None => !self.spec_has(id@),
            },
    {
        match self.find(id) {
            Some(i) => {
                proof {
                    let k = self.spec_index_of(id@);
                    assert(k == i);
                }
                Some(&self.definitions[i])
            },
            None => None,
        }
    }
}

/// Whether a tag container meets an ability definition's activation
/// requirements: every required tag held and no blocked tag held.
pub open spec fn spec_activation_requirements_met(
    ability_def: AbilityDefinition,
    tags: &GameplayTagCountContainer,
) -> bool {
    &&& forall|i: int|
        0 <= i < ability_def.activation_required_tags@.len() ==> tags.spec_has_tag(
            ability_def.activation_required_tags@[i]@,
        )
    &&& !(exists|i: int|
        0 <= i < ability_def.activation_blocked_tags@.len() && tags.spec_has_tag(
            ability_def.activation_blocked_tags@[i]@,
        ))
}

/// Checks if an ability can be activated against a tag container: every
/// required tag must be held and no blocked tag may be held.
pub fn check_ability_activation_requirements(
    ability_def: &AbilityDefinition,
    tags: &GameplayTagCountContainer,
) -> (r: bool)
    ensures
        r == spec_activation_requirements_met(*ability_def, tags),
{
    // Check required tags
    let mut i: usize = 0;
    while i < ability_def.activation_required_tags.len()
        invariant
            0 <= i <= ability_def.activation_required_tags@.len(),
            forall|t: int|
                0 <= t < i ==> tags.spec_has_tag(ability_def.activation_required_tags@[t]@),
        decreases ability_def.activation_required_tags@.len() - i,
    {
        if !tags.has_matching_gameplay_tag(&ability_def.activation_required_tags[i]) {
            return false;
        }
        i = i + 1;
    }
    // Check blocked tags
    let mut i: usize = 0;
    while i < ability_def.activation_blocked_tags.len()
        invariant
            0 <= i <= ability_def.activation_blocked_tags@.len(),
            forall|t: int|
                0 <= t < i ==> !tags.spec_has_tag(ability_def.activation_blocked_tags@[t]@),
        decreases ability_def.activation_blocked_tags@.len() - i,
    {
        if tags.has_matching_gameplay_tag(&ability_def.activation_blocked_tags[i]) {
            return false;
        }
        i = i + 1;
    }
    true
}

/// A granted ability instance.
#[derive(Debug)]
pub struct AbilitySpec {
    /// The ID of the ability definition.
    pub definition_id: String,
    /// The level at which this ability was granted.
    pub level: i32,
    /// Optional input ID for binding to input actions.
    pub input_id: Option<i32>,
    /// Whether this ability is currently active.
    pub is_active: bool,
}

impl AbilitySpec {
    /// Creates a new ability spec, inactive and unbound.
    pub fn new(definition_id: String, level: i32) -> (s: Self)
        ensures
            s.definition_id@ == definition_id@,
            s.level == level,
            s.input_id is None,
            !s.is_active,
    {
        AbilitySpec { definition_id, level, input_id: None, is_active: false }
    }

    /// Sets the input ID for this ability.
    pub fn with_input_id(self, input_id: i32) -> (s: Self)
        ensures
            s.input_id == Some(input_id),
            s.definition_id@ == self.definition_id@,
            s.level == self.level,
            s.is_active == self.is_active,
    {
        AbilitySpec { input_id: Some(input_id), ..self }
    }
}

/// Links an ability to its owner entity.
#[derive(Debug, Clone, Copy, PartialEq, Eq, Structural)]
pub struct AbilityOwner(pub u64);

/// A live activation of an ability.
#[derive(Debug, Clone, Copy, PartialEq, Eq, Structural)]
pub struct ActiveAbilityInstance {
    /// The ability entry that spawned this instance.
    pub spec_entity: u64,
    /// The time when this ability was activated, in fixed-point seconds.
    pub activation_time: i64,
    /// Whether this activation has been committed (costs/cooldowns applied).
    pub is_committed: bool,
}

impl ActiveAbilityInstance {
    /// Creates a new, not yet committed active ability instance.
    pub fn new(spec_entity: u64, activation_time: i64) -> (a: Self)
        ensures
            a.spec_entity == spec_entity,
            a.activation_time == activation_time,
            !a.is_committed,
    {
        ActiveAbilityInstance { spec_entity, activation_time, is_committed: false }
    }
}

/// The displayed state of a granted ability.
#[derive(Debug, Clone, Copy, PartialEq, Eq, Structural)]
pub enum AbilityState {
    /// Ability is ready to be activated.
    Ready,
    /// Ability is currently active.
    Active,
    /// Ability is on cooldown.
    Cooldown,
    /// Ability is blocked by tags or other conditions.
    Blocked,
}

impl Default for AbilityState {
    /// An ability starts out ready.
    fn default() -> (r: Self)
        ensures
            r == AbilityState::Ready,
    {
        AbilityState::Ready
    }
}

/// Marks an ability as being on cooldown.
#[derive(Debug, Clone, Copy, PartialEq, Eq, Structural)]
pub struct AbilityCooldown {
    /// Remaining cooldown time in fixed-point seconds.
    pub remaining: i64,
    /// Total cooldown duration in fixed-point seconds.
    pub total: i64,
}

/// What `AbilityCooldown::progress` returns: 0 at the start, 1 when done,
/// and 1 immediately for a cooldown without positive duration.
pub open spec fn spec_cooldown_progress(remaining: int, total: int) -> int {
    if total <= 0 {
        FP_SCALE as int
    } else {
        let ratio = spec_div_scaled(remaining, total);
        spec_sat_sub(
            FP_SCALE as int,
            if ratio < 0 {
                0
            } else {
                ratio
            },
        )
    }
}

impl AbilityCooldown {
    /// Creates a new cooldown.
    pub fn new(duration: i64) -> (c: Self)
        ensures
            c.remaining == duration,
            c.total == duration,
    {
        AbilityCooldown { remaining: duration, total: duration }
    }

    /// Returns true if the cooldown has expired.
    pub fn is_expired(&self) -> (r: bool)
        ensures
            r == (self.remaining <= 0),
    {
        self.remaining <= 0
    }

    /// Counts the remaining time down.
    pub fn tick(&mut self, delta: i64)
        ensures
            final (self).remaining as int == spec_sat_sub(
                old(self).remaining as int,
                delta as int,
            ),
            final (self).total == old(self).total,
    {
        self.remaining = sat_sub(self.remaining, delta);
    }

    /// Returns the cooldown progress (0 = just started, 1 = finished), as a
    /// fixed-point fraction.
    pub fn progress(&self) -> (r: i64)
        ensures
            r as int == spec_cooldown_progress(self.remaining as int, self.total as int),
    {
        if self.total <= 0 {
            FP_SCALE
        } else {
            let ratio = div_scaled(self.remaining, self.total);
            let floored: i64 = if ratio < 0 {
                0
            } else {
                ratio
            };
            sat_sub(FP_SCALE, floored)
        }
    }
}

} // verus!
