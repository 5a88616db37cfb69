//! Effect system components: active effect instances, duration and periodic
//! timers, and attribute modifiers.

use vstd::prelude::*;

use crate::math::FP_SCALE;
use crate::math::sat_add;
use crate::math::sat_sub;
use crate::math::spec_sat_add;
use crate::math::spec_sat_sub;
use crate::tags::GameplayTag;

verus! {

/// Active gameplay effect instance.
///
/// Each live application of an effect definition to a target is one
/// instance; the instance modifies attributes on the target entity.
#[derive(Debug)]
pub struct ActiveGameplayEffect {
    /// The ID of the effect definition.
    pub definition_id: String,
    /// The level at which this effect was applied.
    pub level: i32,
    /// The time when this effect was applied, in fixed-point seconds.
    pub start_time: i64,
    /// The current stack count for this effect.
    pub stack_count: i32,
}

impl ActiveGameplayEffect {
    /// Creates a new active gameplay effect with a single stack.
    pub fn new(definition_id: String, level: i32, start_time: i64) -> (e: Self)
        ensures
            e.definition_id@ == definition_id@,
            e.level == level,
            e.start_time == start_time,
            e.stack_count == 1,
    {
        ActiveGameplayEffect { definition_id, level, start_time, stack_count: 1 }
    }
}

/// Links an effect instance to its target entity.
#[derive(Debug, Clone, Copy, PartialEq, Eq, Structural)]
pub struct EffectTarget(pub u64);

/// Identifies the instigator of an effect: the entity that caused the
/// effect to be applied.
#[derive(Debug, Clone, Copy, PartialEq, Eq, Structural)]
pub struct EffectInstigator(pub Option<u64>);

/// Remaining time of a duration-based effect.
#[derive(Debug, Clone, Copy, PartialEq, Eq, Structural)]
pub struct EffectDuration {
    /// Remaining time in fixed-point seconds.
    pub remaining: i64,
    /// Total duration in fixed-point seconds.
    pub total: i64,
}

impl EffectDuration {
    /// Creates a new effect duration.
    pub fn new(duration: i64) -> (d: Self)
        ensures
            d.remaining == duration,
            d.total == duration,
    {
        EffectDuration { remaining: duration, total: duration }
    }

    /// Returns true if the effect has expired.
    pub fn is_expired(&self) -> (r: bool)
        ensures
            r == (self.remaining <= 0),
    {
        self.remaining <= 0
    }

    /// Counts the elapsed time down.
    pub fn tick(&mut self, delta: i64)
        ensures
            final (self).remaining as int == spec_sat_sub(
                old(self).remaining as int,
                delta as int,
            ),
            final (self).total == old(self).total,
    {
        self.remaining = sat_sub(self.remaining, delta);
    }
}

/// Countdown to the next execution of a periodic effect.
#[derive(Debug, Clone, Copy, PartialEq, Eq, Structural)]
pub struct PeriodicEffect {
    /// The period between executions in fixed-point seconds.
    pub period: i64,
    /// Time until the next execution in fixed-point seconds.
    pub time_until_next: i64,
}

impl PeriodicEffect {
    /// Creates a new periodic effect whose first execution is one full
    /// period away.
    pub fn new(period: i64) -> (p: Self)
        ensures
            p.period == period,
            p.time_until_next == period,
    {
        PeriodicEffect { period, time_until_next: period }
    }

    /// Returns true if the effect should execute this frame.
    pub fn should_execute(&self) -> (r: bool)
        ensures
            r == (self.time_until_next <= 0),
    {
        self.time_until_next <= 0
    }

    /// Counts the timer down by the frame's delta and returns true if any
    /// execution is due: one full period is added back per crossing, so a
    /// delta spanning several periods catches up until the timer is
    /// positive again. The execution count is pinned by the timer: it is
    /// the unique number of added periods that leaves the timer in
    /// `(0, period]`.
    pub fn tick(&mut self, delta: i64) -> (executed: bool)
        requires
            0 < old(self).period,
            0 < old(self).time_until_next <= old(self).period,
            0 <= delta,
        ensures
            final (self).period == old(self).period,
            0 < final (self).time_until_next <= old(self).period,
            executed == (old(self).time_until_next - delta <= 0),
            exists|k: int|
                0 <= k && final (self).time_until_next as int == old(self).time_until_next - delta
                    + #[trigger] (k * old(self).period),
    {
        let executions = self.advance(delta);
        proof {
            let k = executions as int;
            let p = old(self).period as int;
            assert(self.time_until_next as int == old(self).time_until_next - delta + k * p);
            if old(self).time_until_next - delta <= 0 {
                if k == 0 {
                    assert(k * p == 0) by (nonlinear_arith)
                        requires
                            k == 0,
                    ;
                    assert(false);
                }
            } else {
                if k >= 1 {
                    assert(k * p >= p) by (nonlinear_arith)
                        requires
                            k >= 1,
                            p > 0,
                    ;
                    assert(false);
                }
            }
        }
        executions > 0
    }

    /// Counts the timer down by a whole tick and returns how many times the
    /// effect executes, catching up when the tick spans several periods.
    ///
    /// The count returned is the unique number of executions that leaves the
    /// timer in `(0, period]`.
    pub fn advance(&mut self, dt: i64) -> (executions: u64)
        requires
            0 < old(self).period,
            0 < old(self).time_until_next <= old(self).period,
            0 <= dt,
        ensures
            final (self).period == old(self).period,
            0 < final (self).time_until_next <= old(self).period,
            final (self).time_until_next as int == old(self).time_until_next - dt + executions
                * old(self).period,
    {
        let mut t: i64 = self.time_until_next - dt;
        let mut executions: u64 = 0;
        while t <= 0
            invariant
                self.period == old(self).period,
                0 < self.period,
                0 < old(self).time_until_next <= old(self).period,
                0 <= dt,
                t as int == old(self).time_until_next - dt + executions * self.period,
                t <= self.period,
                executions as int * self.period as int <= self.period + dt,
            decreases self.period + 1 - t,
        {
            proof {
                // With the timer still at or below zero, one more execution
                // still fits inside the tick.
                assert(executions as int <= executions as int * self.period as int)
                    by (nonlinear_arith)
                    requires
                        self.period as int >= 1,
                        executions as int >= 0,
                ;
                assert((executions as int + 1) * self.period as int == executions as int
                    * self.period as int + self.period as int) by (nonlinear_arith);
            }
            t = t + self.period;
            executions = executions + 1;
        }
        self.time_until_next = t;
        executions
    }
}

/// A single modifier applied to an attribute by an effect instance.
#[derive(Debug)]
pub struct AttributeModifier {
    /// The entity that owns the attribute being modified.
    pub target_entity: u64,
    /// The name of the attribute being modified.
    pub target_attribute: String,
    /// The operation to perform.
    pub operation: ModifierOperation,
    /// The magnitude of the modification, in fixed-point thousandths.
    pub magnitude: i64,
}

impl Clone for AttributeModifier {
    fn clone(&self) -> (r: Self)
        ensures
            r.target_entity == self.target_entity,
            r.target_attribute@ == self.target_attribute@,
            r.operation == self.operation,
            r.magnitude == self.magnitude,
    {
        AttributeModifier {
            target_entity: self.target_entity,
            target_attribute: self.target_attribute.clone(),
            operation: self.operation,
            magnitude: self.magnitude,
        }
    }
}

/// The source of a modifier: the instance id of the effect that created it.
#[derive(Debug, Clone, Copy, PartialEq, Eq, Structural)]
pub struct ModifierSource(pub u64);

/// The type of modification operation.
#[derive(Debug, Clone, Copy, PartialEq, Eq, Structural, Hash)]
pub enum ModifierOperation {
    /// Add to the base value (permanent).
    AddBase,
    /// Add to the current value (temporary).
    AddCurrent,
    /// Multiply the current value.
    MultiplyAdditive,
    /// Multiply the current value (multiplicative stacking).
    MultiplyMultiplicative,
    /// Override the current value.
    Override,
}

/// The fixed application order of modifier operations: lower priorities are
/// applied first.
pub open spec fn spec_priority(op: ModifierOperation) -> int {
    match op {
        ModifierOperation::AddBase => 0,
        ModifierOperation::AddCurrent => 1,
        ModifierOperation::MultiplyAdditive => 2,
        ModifierOperation::MultiplyMultiplicative => 3,
        ModifierOperation::Override => 4,
    }
}

impl ModifierOperation {
    /// Returns the priority order for applying modifiers.
    ///
    /// Lower values are applied first.
    pub fn priority(&self) -> (r: i32)
        ensures
            r as int == spec_priority(*self),
    {
        match self {
            ModifierOperation::AddBase => 0,
            ModifierOperation::AddCurrent => 1,
            ModifierOperation::MultiplyAdditive => 2,
            ModifierOperation::MultiplyMultiplicative => 3,
            ModifierOperation::Override => 4,
        }
    }
}

/// Tags granted by an active effect while it is live.
#[derive(Debug)]
pub struct EffectGrantedTags {
    /// The granted tags.
    pub tags: Vec<GameplayTag>,
}

} // verus!
