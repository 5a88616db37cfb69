//! The modifier aggregator: combines all live modifiers of one attribute
//! into its current value.
//!
//! Modifiers are applied in a fixed operation-priority order (AddBase,
//! AddCurrent, MultiplyAdditive, MultiplyMultiplicative, Override), ties
//! broken by creation order. Starting from the base value, AddCurrent adds
//! to the running value, Override replaces it (the last override wins), and
//! the multiplier groups fold into `(1 + additive sum)` and a multiplicative
//! product that scale the result at the end. AddBase modifiers do not take
//! part: they are folded into the base value when their owning instance is
//! created.
//!
//! Each operation group only ever consumes its own modifiers, in creation
//! order, so the result of the stable priority sort is captured here by
//! reading off each group's magnitudes in sequence order; that the outcome
//! depends on nothing else is the aggregation determinism law below.

use vstd::prelude::*;

use crate::effect_components::AttributeModifier;
use crate::effect_components::ModifierOperation;
use crate::math::FP_SCALE;
use crate::math::mul_scaled;
use crate::math::sat_add;
use crate::math::spec_mul_scaled;
use crate::math::spec_sat_add;

verus! {

/// The magnitudes of the modifiers in `s` that perform `op`, in order.
pub open spec fn group_mags(s: Seq<AttributeModifier>, op: ModifierOperation) -> Seq<int>
    decreases s.len(),
{
    if s.len() == 0 {
        Seq::empty()
    } else {
        let rest = group_mags(s.drop_last(), op);
        if s.last().operation == op {
            rest.push(s.last().magnitude as int)
        } else {
            rest
        }
    }
}

/// Saturating sum of the magnitudes, folded left to right from `start`.
pub open spec fn fold_sat_sum(start: int, mags: Seq<int>) -> int
    decreases mags.len(),
{
    if mags.len() == 0 {
        start
    } else {
        spec_sat_add(fold_sat_sum(start, mags.drop_last()), mags.last())
    }
}

/// Product of `(1 + magnitude)` factors, folded left to right from 1,
/// in fixed-point arithmetic.
pub open spec fn fold_mult_product(mags: Seq<int>) -> int
    decreases mags.len(),
{
    if mags.len() == 0 {
        FP_SCALE as int
    } else {
        spec_mul_scaled(fold_mult_product(mags.drop_last()), spec_sat_add(FP_SCALE as int, mags.last()))
    }
}

/// The last magnitude, if any: later overrides win over earlier ones.
pub open spec fn last_mag(mags: Seq<int>) -> Option<int> {
    if mags.len() == 0 {
        None
    } else {
        Some(mags.last())
    }
}

/// What aggregating `s` over a base value yields: the running value (base
/// plus the AddCurrent sum, unless an Override replaced it) scaled by
/// `(1 + additive sum)` and by the multiplicative product.
pub open spec fn spec_aggregate(base: int, s: Seq<AttributeModifier>) -> int {
    let current = match last_mag(group_mags(s, ModifierOperation::Override)) {
        Some(m) => m,
        None => fold_sat_sum(base, group_mags(s, ModifierOperation::AddCurrent)),
    };
    spec_mul_scaled(
        spec_mul_scaled(
            current,
            spec_sat_add(FP_SCALE as int, fold_sat_sum(0, group_mags(s, ModifierOperation::MultiplyAdditive))),
        ),
        fold_mult_product(group_mags(s, ModifierOperation::MultiplyMultiplicative)),
    )
}

/// Aggregation determinism: the aggregated value depends only on each
/// operation group's magnitudes in creation order. Two modifier sequences
/// that agree group by group — in particular, any two submission orders of
/// one logical set whose ties are stable — aggregate to the same value.
pub proof fn lemma_aggregation_deterministic(base: int, s1: Seq<AttributeModifier>, s2: Seq<AttributeModifier>)
    requires
        forall|op: ModifierOperation| #[trigger] group_mags(s1, op) == group_mags(s2, op),
    ensures
        spec_aggregate(base, s1) == spec_aggregate(base, s2),
{
    assert(group_mags(s1, ModifierOperation::Override) == group_mags(s2, ModifierOperation::Override));
    assert(group_mags(s1, ModifierOperation::AddCurrent) == group_mags(s2, ModifierOperation::AddCurrent));
    assert(group_mags(s1, ModifierOperation::MultiplyAdditive) == group_mags(
        s2,
        ModifierOperation::MultiplyAdditive,
    ));
    assert(group_mags(s1, ModifierOperation::MultiplyMultiplicative) == group_mags(
        s2,
        ModifierOperation::MultiplyMultiplicative,
    ));
}

/// Two modifier sequences with the same operations and magnitudes carry the
/// same groups.
proof fn lemma_group_mags_pointwise(s1: Seq<AttributeModifier>, s2: Seq<AttributeModifier>, op: ModifierOperation)
    requires
        s1.len() == s2.len(),
        forall|i: int|
            0 <= i < s1.len() ==> (#[trigger] s1[i]).operation == s2[i].operation
                && s1[i].magnitude == s2[i].magnitude,
    ensures
        group_mags(s1, op) == group_mags(s2, op),
    decreases s1.len(),
{
    if s1.len() > 0 {
        lemma_group_mags_pointwise(s1.drop_last(), s2.drop_last(), op);
    }
}

/// Aggregation reads nothing of a modifier but its operation and magnitude:
/// sequences that agree on those aggregate to the same value.
pub proof fn lemma_aggregate_pointwise(base: int, s1: Seq<AttributeModifier>, s2: Seq<AttributeModifier>)
    requires
        s1.len() == s2.len(),
        forall|i: int|
            0 <= i < s1.len() ==> (#[trigger] s1[i]).operation == s2[i].operation
                && s1[i].magnitude == s2[i].magnitude,
    ensures
        spec_aggregate(base, s1) == spec_aggregate(base, s2),
{
    assert forall|op: ModifierOperation| #[trigger] group_mags(s1, op) == group_mags(s2, op) by {
        lemma_group_mags_pointwise(s1, s2, op);
    }
    lemma_aggregation_deterministic(base, s1, s2);
}

/// An AddCurrent modifier's contribution is visible in the aggregate:
/// adding it to any modifier set raises the pre-multiplier running value by
/// exactly its magnitude, so when no Override is present the aggregated
/// value is the raised running value scaled by the unchanged multiplier
/// groups (an Override, which replaces the running value, masks it).
pub proof fn lemma_add_current_contributes(base: int, s: Seq<AttributeModifier>, m: AttributeModifier)
    requires
        m.operation is AddCurrent,
    ensures
        spec_aggregate(base, s.push(m)) == spec_mul_scaled(
            spec_mul_scaled(
                match last_mag(group_mags(s, ModifierOperation::Override)) {
                    Some(o) => o,
                    None => spec_sat_add(
                        fold_sat_sum(base, group_mags(s, ModifierOperation::AddCurrent)),
                        m.magnitude as int,
                    ),
                },
                spec_sat_add(
                    FP_SCALE as int,
                    fold_sat_sum(0, group_mags(s, ModifierOperation::MultiplyAdditive)),
                ),
            ),
            fold_mult_product(group_mags(s, ModifierOperation::MultiplyMultiplicative)),
        ),
{
    assert(s.push(m).drop_last() =~= s);
    assert(s.push(m).last() == m);
    let g = group_mags(s, ModifierOperation::AddCurrent);
    assert(group_mags(s.push(m), ModifierOperation::AddCurrent) == g.push(m.magnitude as int));
    assert(g.push(m.magnitude as int).drop_last() =~= g);
    assert(fold_sat_sum(base, g.push(m.magnitude as int)) == spec_sat_add(
        fold_sat_sum(base, g),
        m.magnitude as int,
    ));
    assert(group_mags(s.push(m), ModifierOperation::Override) == group_mags(
        s,
        ModifierOperation::Override,
    ));
    assert(group_mags(s.push(m), ModifierOperation::MultiplyAdditive) == group_mags(
        s,
        ModifierOperation::MultiplyAdditive,
    ));
    assert(group_mags(s.push(m), ModifierOperation::MultiplyMultiplicative) == group_mags(
        s,
        ModifierOperation::MultiplyMultiplicative,
    ));
}

/// The modifiers of `s` that perform `op`, in order.
pub open spec fn ops_filter(s: Seq<AttributeModifier>, op: ModifierOperation) -> Seq<AttributeModifier>
    decreases s.len(),
{
    if s.len() == 0 {
        Seq::empty()
    } else {
        let rest = ops_filter(s.drop_last(), op);
        if s.last().operation == op {
            rest.push(s.last())
        } else {
            rest
        }
    }
}

/// The stable priority sort of `s`: the operation groups concatenated in
/// ascending priority order, each group in creation order.
pub open spec fn spec_sorted_by_priority(s: Seq<AttributeModifier>) -> Seq<AttributeModifier> {
    ops_filter(s, ModifierOperation::AddBase) + ops_filter(s, ModifierOperation::AddCurrent) + ops_filter(
        s,
        ModifierOperation::MultiplyAdditive,
    ) + ops_filter(s, ModifierOperation::MultiplyMultiplicative) + ops_filter(
        s,
        ModifierOperation::Override,
    )
}

/// Group magnitudes distribute over concatenation.
proof fn lemma_group_mags_concat(a: Seq<AttributeModifier>, b: Seq<AttributeModifier>, op: ModifierOperation)
    ensures
        group_mags(a + b, op) == group_mags(a, op) + group_mags(b, op),
    decreases b.len(),
{
    if b.len() == 0 {
        assert(a + b =~= a);
        assert(group_mags(a, op) + group_mags(b, op) =~= group_mags(a, op));
    } else {
        assert((a + b).drop_last() =~= a + b.drop_last());
        assert((a + b).last() == b.last());
        lemma_group_mags_concat(a, b.drop_last(), op);
        if b.last().operation == op {
            assert(group_mags(a, op) + group_mags(b.drop_last(), op).push(b.last().magnitude as int)
                =~= (group_mags(a, op) + group_mags(b.drop_last(), op)).push(b.last().magnitude as int));
        }
    }
}

/// Filtering for one operation keeps exactly that group's magnitudes and
/// drops every other group.
proof fn lemma_group_mags_of_filter(s: Seq<AttributeModifier>, kept: ModifierOperation, op: ModifierOperation)
    ensures
        group_mags(ops_filter(s, kept), op) == if kept == op {
            group_mags(s, op)
        } else {
            Seq::<int>::empty()
        },
    decreases s.len(),
{
    if s.len() > 0 {
        lemma_group_mags_of_filter(s.drop_last(), kept, op);
        if s.last().operation == kept {
            let rest = ops_filter(s.drop_last(), kept);
            assert(rest.push(s.last()).drop_last() =~= rest);
        }
    }
}

/// Sorting by priority leaves every operation group unchanged, so the
/// aggregated value of the sorted sequence is the aggregated value of the
/// original: the spec above does apply the modifiers in priority order.
pub proof fn lemma_aggregate_of_sorted(base: int, s: Seq<AttributeModifier>)
    ensures
        spec_aggregate(base, spec_sorted_by_priority(s)) == spec_aggregate(base, s),
{
    assert forall|op: ModifierOperation| #[trigger] group_mags(spec_sorted_by_priority(s), op)
        == group_mags(s, op) by {
        let f0 = ops_filter(s, ModifierOperation::AddBase);
        let f1 = ops_filter(s, ModifierOperation::AddCurrent);
        let f2 = ops_filter(s, ModifierOperation::MultiplyAdditive);
        let f3 = ops_filter(s, ModifierOperation::MultiplyMultiplicative);
        let f4 = ops_filter(s, ModifierOperation::Override);
        lemma_group_mags_concat(f0 + f1 + f2 + f3, f4, op);
        lemma_group_mags_concat(f0 + f1 + f2, f3, op);
        lemma_group_mags_concat(f0 + f1, f2, op);
        lemma_group_mags_concat(f0, f1, op);
        lemma_group_mags_of_filter(s, ModifierOperation::AddBase, op);
        lemma_group_mags_of_filter(s, ModifierOperation::AddCurrent, op);
        lemma_group_mags_of_filter(s, ModifierOperation::MultiplyAdditive, op);
        lemma_group_mags_of_filter(s, ModifierOperation::MultiplyMultiplicative, op);
        lemma_group_mags_of_filter(s, ModifierOperation::Override, op);
        if op == ModifierOperation::AddBase {
            assert(group_mags(spec_sorted_by_priority(s), op) =~= group_mags(s, op));
        } else if op == ModifierOperation::AddCurrent {
            assert(group_mags(spec_sorted_by_priority(s), op) =~= group_mags(s, op));
        } else if op == ModifierOperation::MultiplyAdditive {
            assert(group_mags(spec_sorted_by_priority(s), op) =~= group_mags(s, op));
        } else if op == ModifierOperation::MultiplyMultiplicative {
            assert(group_mags(spec_sorted_by_priority(s), op) =~= group_mags(s, op));
        } else {
            assert(group_mags(spec_sorted_by_priority(s), op) =~= group_mags(s, op));
        }
    }
    lemma_aggregation_deterministic(base, spec_sorted_by_priority(s), s);
}

/// Aggregates the modifiers over a base value.
///
/// A single pass suffices: every accumulator consumes only its own
/// operation group, in creation order, which is exactly what applying the
/// modifiers sorted stably by priority would do.
pub fn aggregate_modifiers(base_value: i64, modifiers: &Vec<AttributeModifier>) -> (r: i64)
    ensures
        r as int == spec_aggregate(base_value as int, modifiers@),
{
    let mut current: i64 = base_value;
    let mut additive: i64 = 0;
    let mut multiplicative: i64 = FP_SCALE;
    let mut last_override: Option<i64> = None;
    let mut i: usize = 0;
    while i < modifiers.len()
        invariant
            0 <= i <= modifiers@.len(),
            current as int == fold_sat_sum(
                base_value as int,
                group_mags(modifiers@.take(i as int), ModifierOperation::AddCurrent),
            ),
            additive as int == fold_sat_sum(
                0,
                group_mags(modifiers@.take(i as int), ModifierOperation::MultiplyAdditive),
            ),
            multiplicative as int == fold_mult_product(
                group_mags(modifiers@.take(i as int), ModifierOperation::MultiplyMultiplicative),
            ),
            (match last_override {
                Some(m) => Some(m as int),
                None => None,
            }) == last_mag(group_mags(modifiers@.take(i as int), ModifierOperation::Override)),
        decreases modifiers@.len() - i,
    {
        proof {
            assert(modifiers@.take(i + 1).drop_last() =~= modifiers@.take(i as int));
            assert(modifiers@.take(i + 1).last() == modifiers@[i as int]);
            assert forall|op: ModifierOperation, m: int|
                true implies #[trigger] fold_sat_sum(m, group_mags(modifiers@.take(i as int), op).push(
                modifiers@[i as int].magnitude as int,
            )) == spec_sat_add(
                fold_sat_sum(m, group_mags(modifiers@.take(i as int), op)),
                modifiers@[i as int].magnitude as int,
            ) by {
                let g = group_mags(modifiers@.take(i as int), op);
                assert(g.push(modifiers@[i as int].magnitude as int).drop_last() =~= g);
            }
            assert forall|op: ModifierOperation|
                true implies #[trigger] fold_mult_product(group_mags(modifiers@.take(i as int), op).push(
                modifiers@[i as int].magnitude as int,
            )) == spec_mul_scaled(
                fold_mult_product(group_mags(modifiers@.take(i as int), op)),
                spec_sat_add(FP_SCALE as int, modifiers@[i as int].magnitude as int),
            ) by {
                let g = group_mags(modifiers@.take(i as int), op);
                assert(g.push(modifiers@[i as int].magnitude as int).drop_last() =~= g);
            }
        }
        match modifiers[i].operation {
            ModifierOperation::AddBase => {
                // Folded into the base value when the owning instance was
                // created; carries no standing contribution here.
            },
            ModifierOperation::AddCurrent => {
                current = sat_add(current, modifiers[i].magnitude);
            },
            ModifierOperation::MultiplyAdditive => {
                additive = sat_add(additive, modifiers[i].magnitude);
            },
            ModifierOperation::MultiplyMultiplicative => {
                multiplicative = mul_scaled(multiplicative, sat_add(FP_SCALE, modifiers[i].magnitude));
            },
            ModifierOperation::Override => {
                last_override = Some(modifiers[i].magnitude);
            },
        }
        i = i + 1;
    }
    proof {
        assert(modifiers@.take(modifiers@.len() as int) =~= modifiers@);
    }
    let chosen: i64 = match last_override {
        Some(m) => m,
        None => current,
    };
    mul_scaled(mul_scaled(chosen, sat_add(FP_SCALE, additive)), multiplicative)
}

} // verus!
