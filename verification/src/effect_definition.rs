//! Gameplay effect definitions: immutable templates for creating active
//! effect instances, and the registry that stores them by id.

use vstd::prelude::*;

use crate::effect_components::ModifierOperation;
use crate::math::spec_mul_scaled;
use crate::math::spec_sat_add;
use crate::math::mul_scaled;
use crate::math::sat_add;
use crate::tag_requirements::TagRequirements;
use crate::tags::GameplayTag;
use crate::tags::str_eq;

verus! {

/// How long an effect lives once applied.
#[derive(Debug, Clone, Copy, PartialEq, Eq, Structural, Hash)]
pub enum DurationPolicy {
    /// Effect applies instantly and is removed after one aggregation pass.
    Instant,
    /// Effect has a limited duration.
    HasDuration,
    /// Effect lasts forever until explicitly removed.
    Infinite,
}

/// What happens when the same effect definition is reapplied to a target
/// that already carries an instance of it.
#[derive(Debug, Clone, Copy, PartialEq, Eq, Structural, Hash)]
pub enum StackingPolicy {
    /// Each application is independent.
    Independent,
    /// Refresh the duration on reapplication.
    RefreshDuration,
    /// Increment stack count up to a maximum.
    StackCount {
        /// The cap on the stack count; further applications are clamped.
        max_stacks: i32,
    },
}

/// How a modifier's magnitude is computed when an instance is created or a
/// periodic execution re-evaluates it.
#[derive(Debug)]
pub enum MagnitudeCalculation {
    /// A fixed scalar value.
    ScalableFloat {
        /// The constant magnitude, in fixed-point thousandths.
        base_value: i64,
    },
    /// Calculate from an attribute on the source:
    /// `(source + pre_multiply_additive) * coefficient + post_multiply_additive`.
    AttributeBased {
        /// The source attribute read from the instigator.
        attribute_name: String,
        /// Factor applied to the pre-added source value.
        coefficient: i64,
        /// Added to the source value before multiplying.
        pre_multiply_additive: i64,
        /// Added after multiplying.
        post_multiply_additive: i64,
    },
    /// Custom calculation (placeholder for future extension); evaluates to 0.
    Custom,
}

/// What `MagnitudeCalculation::evaluate` returns for a given source value
/// (the level does not enter the calculation).
pub open spec fn spec_evaluate_magnitude(calc: MagnitudeCalculation, source_value: Option<int>) -> int {
    match calc {
        MagnitudeCalculation::ScalableFloat { base_value } => base_value as int,
        MagnitudeCalculation::AttributeBased {
            attribute_name: _,
            coefficient,
            pre_multiply_additive,
            post_multiply_additive,
        } => {
            let source = match source_value {
                Some(v) => v,
                None => 0,
            };
            spec_sat_add(
                spec_mul_scaled(
                    spec_sat_add(source, pre_multiply_additive as int),
                    coefficient as int,
                ),
                post_multiply_additive as int,
            )
        },
        MagnitudeCalculation::Custom => 0,
    }
}

/// Whether two magnitude calculations carry the same content (their string
/// fields compared by view).
pub open spec fn spec_calc_matches(a: MagnitudeCalculation, b: MagnitudeCalculation) -> bool {
    match a {
        MagnitudeCalculation::ScalableFloat { base_value: av } => b matches MagnitudeCalculation::ScalableFloat {
            base_value: bv,
        } && av == bv,
        MagnitudeCalculation::AttributeBased {
            attribute_name: an,
            coefficient: ac,
            pre_multiply_additive: apre,
            post_multiply_additive: apost,
        } => b matches MagnitudeCalculation::AttributeBased {
            attribute_name: bn,
            coefficient: bc,
            pre_multiply_additive: bpre,
            post_multiply_additive: bpost,
        } && an@ == bn@ && ac == bc && apre == bpre && apost == bpost,
        MagnitudeCalculation::Custom => b is Custom,
    }
}

/// Matching calculations evaluate to the same magnitude on the same source.
pub proof fn lemma_calc_matches_same_value(a: MagnitudeCalculation, b: MagnitudeCalculation, source: Option<int>)
    requires
        spec_calc_matches(a, b),
    ensures
        spec_evaluate_magnitude(a, source) == spec_evaluate_magnitude(b, source),
{
}

/// Whether two modifier templates carry the same content.
pub open spec fn spec_info_matches(a: ModifierInfo, b: ModifierInfo) -> bool {
    a.attribute_name@ == b.attribute_name@ && a.operation == b.operation && spec_calc_matches(
        a.magnitude,
        b.magnitude,
    )
}

impl Clone for MagnitudeCalculation {
    fn clone(&self) -> (r: Self)
        ensures
            spec_calc_matches(r, *self),
    {
        match self {
            MagnitudeCalculation::ScalableFloat { base_value } => MagnitudeCalculation::ScalableFloat {
                base_value: *base_value,
            },
            MagnitudeCalculation::AttributeBased {
                attribute_name,
                coefficient,
                pre_multiply_additive,
                post_multiply_additive,
            } => MagnitudeCalculation::AttributeBased {
                attribute_name: attribute_name.clone(),
                coefficient: *coefficient,
                pre_multiply_additive: *pre_multiply_additive,
                post_multiply_additive: *post_multiply_additive,
            },
            MagnitudeCalculation::Custom => MagnitudeCalculation::Custom,
        }
    }
}

impl MagnitudeCalculation {
    /// Creates a simple scalar magnitude.
    pub fn scalar(value: i64) -> (m: Self)
        ensures
            m == (MagnitudeCalculation::ScalableFloat { base_value: value }),
    {
        MagnitudeCalculation::ScalableFloat { base_value: value }
    }

    /// Creates an attribute-based magnitude with no pre or post addition.
    pub fn from_attribute(attribute_name: &str, coefficient: i64) -> (m: Self)
        ensures
            m matches MagnitudeCalculation::AttributeBased {
                attribute_name: n,
                coefficient: c,
                pre_multiply_additive: pre,
                post_multiply_additive: post,
            } && n@ == attribute_name@ && c == coefficient && pre == 0 && post == 0,
    {
        MagnitudeCalculation::AttributeBased {
            attribute_name: attribute_name.to_owned(),
            coefficient,
            pre_multiply_additive: 0,
            post_multiply_additive: 0,
        }
    }

    /// Evaluates the magnitude given a level and optional source value read
    /// from the instigator's attributes.
    pub fn evaluate(&self, level: i32, source_value: Option<i64>) -> (r: i64)
        ensures
            r as int == spec_evaluate_magnitude(
                *self,
                match source_value {
                    Some(v) => Some(v as int),
                    None => None,
                },
            ),
    {
        let _ = level;
        match self {
            MagnitudeCalculation::ScalableFloat { base_value } => *base_value,
            MagnitudeCalculation::AttributeBased {
                attribute_name: _,
                coefficient,
                pre_multiply_additive,
                post_multiply_additive,
            } => {
                let source = match source_value {
                    Some(v) => v,
                    None => 0,
                };
                sat_add(mul_scaled(sat_add(source, *pre_multiply_additive), *coefficient), *post_multiply_additive)
            },
            MagnitudeCalculation::Custom => 0,
        }
    }
}

/// Information about one modifier in an effect definition.
#[derive(Debug)]
pub struct ModifierInfo {
    /// The name of the attribute to modify.
    pub attribute_name: String,
    /// The operation to perform.
    pub operation: ModifierOperation,
    /// How to calculate the magnitude.
    pub magnitude: MagnitudeCalculation,
}

impl Clone for ModifierInfo {
    fn clone(&self) -> (r: Self)
        ensures
            spec_info_matches(r, *self),
    {
        ModifierInfo {
            attribute_name: self.attribute_name.clone(),
            operation: self.operation,
            magnitude: self.magnitude.clone(),
        }
    }
}

impl ModifierInfo {
    /// Creates a new modifier info.
    pub fn new(attribute_name: &str, operation: ModifierOperation, magnitude: MagnitudeCalculation) -> (m: Self)
        ensures
            m.attribute_name@ == attribute_name@,
            m.operation == operation,
            m.magnitude == magnitude,
    {
        ModifierInfo { attribute_name: attribute_name.to_owned(), operation, magnitude }
    }
}

/// Definition of a gameplay effect: the immutable template for creating
/// active effect instances.
#[derive(Debug)]
pub struct GameplayEffectDefinition {
    /// Unique identifier for this effect.
    pub id: String,
    /// Duration policy.
    pub duration_policy: DurationPolicy,
    /// Duration in fixed-point seconds (meaningful if HasDuration).
    pub duration_magnitude: i64,
    /// Period for periodic effects in fixed-point seconds (0 = not periodic).
    pub period: i64,
    /// Modifiers applied by this effect.
    pub modifiers: Vec<ModifierInfo>,
    /// Tags granted to the target while this effect is active.
    pub granted_tags: Vec<GameplayTag>,
    /// Tag requirements the target must meet for this effect to apply.
    pub application_tag_requirements: TagRequirements,
    /// Stacking policy.
    pub stacking_policy: StackingPolicy,
}

impl GameplayEffectDefinition {
    /// Creates a new instant, non-periodic, independent effect definition
    /// with no modifiers, granted tags or application requirements.
    pub fn new(id: &str) -> (d: Self)
        ensures
            d.id@ == id@,
            d.duration_policy == DurationPolicy::Instant,
            d.duration_magnitude == 0,
            d.period == 0,
            d.modifiers@.len() == 0,
            d.granted_tags@.len() == 0,
            d.application_tag_requirements.require_tags@.len() == 0,
            d.application_tag_requirements.ignore_tags@.len() == 0,
            d.application_tag_requirements.require_any_tags@.len() == 0,
            d.application_tag_requirements.require_all_tags@.len() == 0,
            d.stacking_policy == StackingPolicy::Independent,
    {
        GameplayEffectDefinition {
            id: id.to_owned(),
            duration_policy: DurationPolicy::Instant,
            duration_magnitude: 0,
            period: 0,
            modifiers: Vec::new(),
            granted_tags: Vec::new(),
            application_tag_requirements: TagRequirements::new(),
            stacking_policy: StackingPolicy::Independent,
        }
    }

    /// Sets the duration policy.
    pub fn with_duration_policy(self, policy: DurationPolicy) -> (d: Self)
        ensures
            d == (GameplayEffectDefinition { duration_policy: policy, ..self }),
    {
        GameplayEffectDefinition { duration_policy: policy, ..self }
    }

    /// Sets the duration and switches the policy to HasDuration.
    pub fn with_duration(self, duration: i64) -> (d: Self)
        ensures
            d == (GameplayEffectDefinition {
                duration_policy: DurationPolicy::HasDuration,
                duration_magnitude: duration,
                ..self
            }),
    {
        GameplayEffectDefinition {
            duration_policy: DurationPolicy::HasDuration,
            duration_magnitude: duration,
            ..self
        }
    }

    /// Sets the period for periodic effects.
    pub fn with_period(self, period: i64) -> (d: Self)
        ensures
            d == (GameplayEffectDefinition { period, ..self }),
    {
        GameplayEffectDefinition { period, ..self }
    }

    /// Adds a modifier to this effect.
    pub fn add_modifier(self, modifier: ModifierInfo) -> (d: Self)
        ensures
            d.modifiers@ == self.modifiers@.push(modifier),
            d.id@ == self.id@,
            d.duration_policy == self.duration_policy,
            d.duration_magnitude == self.duration_magnitude,
            d.period == self.period,
            d.granted_tags@ == self.granted_tags@,
            d.application_tag_requirements == self.application_tag_requirements,
            d.stacking_policy == self.stacking_policy,
    {
        let mut out = self;
        out.modifiers.push(modifier);
        out
    }

    /// Adds a granted tag.
    pub fn grant_tag(self, tag: GameplayTag) -> (d: Self)
        ensures
            d.granted_tags@ == self.granted_tags@.push(tag),
            d.id@ == self.id@,
            d.duration_policy == self.duration_policy,
            d.duration_magnitude == self.duration_magnitude,
            d.period == self.period,
            d.modifiers@ == self.modifiers@,
            d.application_tag_requirements == self.application_tag_requirements,
            d.stacking_policy == self.stacking_policy,
    {
        let mut out = self;
        out.granted_tags.push(tag);
        out
    }

    /// Sets the tag requirements the target must meet on application.
    pub fn with_tag_requirements(self, requirements: TagRequirements) -> (d: Self)
        ensures
            d == (GameplayEffectDefinition { application_tag_requirements: requirements, ..self }),
    {
        GameplayEffectDefinition { application_tag_requirements: requirements, ..self }
    }

    /// Sets the stacking policy.
    pub fn with_stacking_policy(self, policy: StackingPolicy) -> (d: Self)
        ensures
            d == (GameplayEffectDefinition { stacking_policy: policy, ..self }),
    {
        GameplayEffectDefinition { stacking_policy: policy, ..self }
    }
}

/// Registry of all gameplay effect definitions, keyed by id.
#[derive(Debug)]
pub struct GameplayEffectRegistry {
    /// The registered definitions; ids are unique.
    pub definitions: Vec<GameplayEffectDefinition>,
}

impl GameplayEffectRegistry {
    /// Ids are unique.
    pub open spec fn wf(&self) -> bool {
        forall|i: int, j: int|
            0 <= i < j < self.definitions@.len() ==> self.definitions@[i].id@
                != self.definitions@[j].id@
    }

    /// Whether a definition with the id is registered.
    pub open spec fn spec_has(&self, id: Seq<char>) -> bool {
        exists|i: int| 0 <= i < self.definitions@.len() && self.definitions@[i].id@ == id
    }

    /// The index of the definition with the id.
    pub open spec fn spec_index_of(&self, id: Seq<char>) -> int {
        choose|i: int| 0 <= i < self.definitions@.len() && self.definitions@[i].id@ == id
    }

    /// Creates a new empty registry.
    pub fn new() -> (r: Self)
        ensures
            r.definitions@.len() == 0,
            r.wf(),
    {
        GameplayEffectRegistry { definitions: Vec::new() }
    }

    /// Finds the index of the definition with the given id.
    pub(crate) fn find(&self, id: &str) -> (r: Option<usize>)
        ensures
            match r {
                Some(i) => 0 <= i < self.definitions@.len() && self.definitions@[i as int].id@
                    == id@,
                None => !self.spec_has(id@),
            },
    {
        let mut i: usize = 0;
        while i < self.definitions.len()
            invariant
                0 <= i <= self.definitions@.len(),
                forall|j: int| 0 <= j < i ==> self.definitions@[j].id@ != id@,
            decreases self.definitions@.len() - i,
        {
            if str_eq(self.definitions[i].id.as_str(), id) {
                return Some(i);
            }
            i = i + 1;
        }
        None
    }

    /// Registers an effect definition, overwriting any existing definition
    /// with the same id (last write wins, no error).
    pub fn register(&mut self, definition: GameplayEffectDefinition)
        requires
            old(self).wf(),
        ensures
            final (self).wf(),
            final (self).spec_has(definition.id@),
            final (self).definitions@[final (self).spec_index_of(definition.id@)] == definition,
            forall|other: Seq<char>|
                other != definition.id@ ==> (final (self).spec_has(other) == old(self).spec_has(
                    other,
                ) && (old(self).spec_has(other) ==> final (self).definitions@[final (self).spec_index_of(
                    other,
                )] == old(self).definitions@[old(self).spec_index_of(other)])),
    {
        let ghost id_view = definition.id@;
        match self.find(definition.id.as_str()) {
            Some(i) => {
                self.definitions[i] = definition;
                proof {
                    assert(forall|j: int|
                        0 <= j < self.definitions@.len() && j != i ==> self.definitions@[j] == old(
                            self,
                        ).definitions@[j]);
                    assert(self.definitions@[i as int].id@ == id_view);
                    self.lemma_register_frame(old(self), id_view, i as int);
                }
            },
            None => {
                self.definitions.push(definition);
                proof {
                    let last = self.definitions@.len() - 1;
                    assert(self.definitions@[last].id@ == id_view);
                    self.lemma_register_frame(old(self), id_view, last);
                }
            },
        }
    }

    /// After changing or adding only the definition of one id, every other
    /// id still resolves as before.
    proof fn lemma_register_frame(&self, prev: &Self, id: Seq<char>, at: int)
        requires
            prev.wf(),
            0 <= at < self.definitions@.len(),
            self.definitions@.len() == prev.definitions@.len() || self.definitions@.len()
                == prev.definitions@.len() + 1,
            self.definitions@[at].id@ == id,
            forall|j: int|
                0 <= j < self.definitions@.len() && j != at ==> j < prev.definitions@.len()
                    && self.definitions@[j] == prev.definitions@[j],
            at < prev.definitions@.len() ==> prev.definitions@[at].id@ == id,
            at >= prev.definitions@.len() ==> !prev.spec_has(id),
        ensures
            self.wf(),
            self.spec_has(id),
            self.definitions@[self.spec_index_of(id)] == self.definitions@[at],
            forall|other: Seq<char>|
                other != id ==> (self.spec_has(other) == prev.spec_has(other) && (prev.spec_has(
                    other,
                ) ==> self.definitions@[self.spec_index_of(other)]
                    == prev.definitions@[prev.spec_index_of(other)])),
    {
        assert(self.wf()) by {
            assert(forall|j: int|
                0 <= j < self.definitions@.len() && j != at ==> self.definitions@[j].id@ == prev
                    .definitions@[j].id@);
        }
        assert(self.spec_has(id));
        let k = self.spec_index_of(id);
        assert(k == at);
        assert forall|other: Seq<char>| other != id implies (self.spec_has(other) == prev.spec_has(
            other,
        ) && (prev.spec_has(other) ==> self.definitions@[self.spec_index_of(other)]
            == prev.definitions@[prev.spec_index_of(other)])) by {
            if self.spec_has(other) {
                let i = self.spec_index_of(other);
                assert(i != at);
                assert(prev.definitions@[i] == self.definitions@[i]);
                assert(prev.spec_has(other));
            }
            if prev.spec_has(other) {
                let i = prev.spec_index_of(other);
                assert(i != at);
                assert(self.definitions@[i] == prev.definitions@[i]);
                assert(self.spec_has(other));
                let i2 = self.spec_index_of(other);
                assert(i2 != at);
                assert(prev.definitions@[i2].id@ == other);
                assert(i2 == i);
            }
        }
    }

    /// Gets an effect definition by id.
    pub fn get(&self, id: &str) -> (r: Option<&GameplayEffectDefinition>)
        requires
            self.wf(),
        ensures
            match r {
                Some(d) => self.spec_has(id@) && *d == self.definitions@[self.spec_index_of(id@)],
                None => !self.spec_has(id@),
            },
    {
        match self.find(id) {
            Some(i) => {
                proof {
                    let k = self.spec_index_of(id@);
                    assert(k == i);
                }
                Some(&self.definitions[i])
            },
            None => None,
        }
    }
}

} // verus!
