//! The attribute store: base/current value pairs keyed by owner and name.
//!
//! Each attribute belongs to an owner entity (a plain `u64` id) and carries a
//! permanent base value and a modifier-adjusted current value, both
//! fixed-point thousandths. Optional metadata bounds the values; a clamping
//! pass runs once per tick after all mutation and is idempotent.

use vstd::prelude::*;

use crate::math::clamp_optional;
use crate::math::spec_clamp_optional;
use crate::tags::str_eq;

verus! {

/// Marker for an owner entity that carries a set of attributes.
#[derive(Debug, Clone, Copy, PartialEq, Eq, Structural)]
pub struct AttributeSet;

/// Single attribute value pair.
///
/// The base value is the permanent value, while the current value is the
/// result of applying all modifiers from gameplay effects.
#[derive(Debug, Clone, Copy, PartialEq, Eq, Structural)]
pub struct AttributeData {
    /// The base value of the attribute (permanent), in fixed-point thousandths.
    pub base_value: i64,
    /// The current value after applying all modifiers.
    pub current_value: i64,
}

impl AttributeData {
    /// Creates a new attribute with the given base value.
    ///
    /// The current value is initialized to the base value.
    pub fn new(base_value: i64) -> (d: Self)
        ensures
            d.base_value == base_value,
            d.current_value == base_value,
    {
        AttributeData { base_value, current_value: base_value }
    }

    /// Sets the base value and updates the current value.
    ///
    /// This should be used for permanent changes to the attribute.
    pub fn set_base_value(&mut self, value: i64)
        ensures
            final (self).base_value == value,
            final (self).current_value == value,
    {
        self.base_value = value;
        self.current_value = value;
    }
}

/// Turns an optional fixed-point bound into its mathematical value.
pub open spec fn spec_opt_int(o: Option<i64>) -> Option<int> {
    match o {
        Some(v) => Some(v as int),
        None => None,
    }
}

/// Metadata for an attribute: its name and optional value bounds.
#[derive(Debug, Clone, Copy)]
pub struct AttributeMetadata {
    /// The name of the attribute (e.g., "Health", "Mana").
    pub name: &'static str,
    /// Minimum allowed value (if any).
    pub min_value: Option<i64>,
    /// Maximum allowed value (if any).
    pub max_value: Option<i64>,
}

impl AttributeMetadata {
    /// What `clamp` returns: the lower bound applied first, then the upper
    /// bound, so the upper bound wins when the bounds cross.
    pub open spec fn spec_clamp(&self, v: int) -> int {
        spec_clamp_optional(v, spec_opt_int(self.min_value), spec_opt_int(self.max_value))
    }

    /// Creates new attribute metadata without bounds.
    pub fn new(name: &'static str) -> (m: Self)
        ensures
            m.name == name,
            m.min_value is None,
            m.max_value is None,
    {
        AttributeMetadata { name, min_value: None, max_value: None }
    }

    /// Sets the minimum value constraint.
    pub fn with_min(self, min: i64) -> (m: Self)
        ensures
            m.name == self.name,
            m.min_value == Some(min),
            m.max_value == self.max_value,
    {
        AttributeMetadata { min_value: Some(min), ..self }
    }

    /// Sets the maximum value constraint.
    pub fn with_max(self, max: i64) -> (m: Self)
        ensures
            m.name == self.name,
            m.min_value == self.min_value,
            m.max_value == Some(max),
    {
        AttributeMetadata { max_value: Some(max), ..self }
    }

    /// Clamps a value to the attribute's constraints.
    pub fn clamp(&self, value: i64) -> (r: i64)
        ensures
            r as int == self.spec_clamp(value as int),
    {
        clamp_optional(value, self.min_value, self.max_value)
    }
}

/// Clamping twice is the same as clamping once.
pub proof fn lemma_clamp_idempotent(m: AttributeMetadata, v: int)
    ensures
        m.spec_clamp(m.spec_clamp(v)) == m.spec_clamp(v),
{
}

/// Name under which an attribute is keyed.
#[derive(Debug)]
pub struct AttributeName(pub String);

impl View for AttributeName {
    type V = Seq<char>;

    open spec fn view(&self) -> Seq<char> {
        self.0@
    }
}

impl Clone for AttributeName {
    fn clone(&self) -> (r: Self)
        ensures
            r@ == self@,
    {
        AttributeName(self.0.clone())
    }
}

impl AttributeName {
    /// Creates a new attribute name.
    pub fn new(name: &str) -> (n: Self)
        ensures
            n@ == name@,
    {
        AttributeName(name.to_owned())
    }

    /// Gets the attribute name as a string slice.
    pub fn as_str(&self) -> (s: &str)
        ensures
            s@ == self@,
    {
        self.0.as_str()
    }
}

/// One attribute row of the store.
#[derive(Debug)]
pub struct AttributeEntry {
    /// The owner entity this attribute belongs to.
    pub owner: u64,
    /// The attribute's name.
    pub name: AttributeName,
    /// The value pair.
    pub data: AttributeData,
    /// Optional bounds.
    pub metadata: Option<AttributeMetadata>,
}

/// The row after one clamping pass: values pulled into the metadata bounds,
/// everything else untouched.
pub open spec fn spec_clamp_entry(e: AttributeEntry) -> AttributeEntry {
    match e.metadata {
        Some(m) => AttributeEntry {
            owner: e.owner,
            name: e.name,
            data: AttributeData {
                base_value: m.spec_clamp(e.data.base_value as int) as i64,
                current_value: m.spec_clamp(e.data.current_value as int) as i64,
            },
            metadata: e.metadata,
        },
        None => e,
    }
}

/// Clamping a row twice is the same as clamping it once.
pub proof fn lemma_clamp_entry_idempotent(e: AttributeEntry)
    ensures
        spec_clamp_entry(spec_clamp_entry(e)) == spec_clamp_entry(e),
{
}

/// The attribute store: one row per (owner, name) pair.
#[derive(Debug)]
pub struct AttributeStore {
    /// The rows; no two rows share an (owner, name) key.
    pub entries: Vec<AttributeEntry>,
}

impl AttributeStore {
    /// No two rows share an (owner, name) key.
    pub open spec fn wf(&self) -> bool {
        forall|i: int, j: int|
            0 <= i < j < self.entries@.len() ==> !(self.entries@[i].owner == self.entries@[j].owner
                && self.entries@[i].name@ == self.entries@[j].name@)
    }

    /// Whether some row carries the key.
    pub open spec fn spec_has_attribute(&self, owner: u64, name: Seq<char>) -> bool {
        exists|i: int|
            0 <= i < self.entries@.len() && self.entries@[i].owner == owner
                && self.entries@[i].name@ == name
    }

    /// The index of the row carrying the key.
    pub open spec fn spec_index_of(&self, owner: u64, name: Seq<char>) -> int {
        choose|i: int|
            0 <= i < self.entries@.len() && self.entries@[i].owner == owner
                && self.entries@[i].name@ == name
    }

    /// The value pair stored under the key, if any.
    pub open spec fn spec_lookup(&self, owner: u64, name: Seq<char>) -> Option<AttributeData> {
        if self.spec_has_attribute(owner, name) {
            Some(self.entries@[self.spec_index_of(owner, name)].data)
        } else {
            None
        }
    }

    /// Creates an empty store.
    pub fn new() -> (s: Self)
        ensures
            s.entries@.len() == 0,
            s.wf(),
    {
        AttributeStore { entries: Vec::new() }
    }

    /// Finds the row index for an owner's attribute by name.
    pub fn find_attribute(&self, owner: u64, name: &str) -> (r: Option<usize>)
        ensures
            match r {
                Some(i) => 0 <= i < self.entries@.len() && self.entries@[i as int].owner == owner
                    && self.entries@[i as int].name@ == name@,
                None => !self.spec_has_attribute(owner, name@),
            },
    {
        let mut i: usize = 0;
        while i < self.entries.len()
            invariant
                0 <= i <= self.entries@.len(),
                forall|j: int|
                    0 <= j < i ==> !(self.entries@[j].owner == owner && self.entries@[j].name@
                        == name@),
            decreases self.entries@.len() - i,
        {
            if self.entries[i].owner == owner && str_eq(self.entries[i].name.as_str(), name) {
                return Some(i);
            }
            i = i + 1;
        }
        None
    }

    /// Whether the owner has an attribute of that name.
    pub fn has_attribute(&self, owner: u64, name: &str) -> (r: bool)
        ensures
            r == self.spec_has_attribute(owner, name@),
    {
        self.find_attribute(owner, name).is_some()
    }

    /// Creates (or resets) an attribute row: the value pair starts at the
    /// default value and the metadata is attached as given.
    pub fn create(&mut self, owner: u64, name: &str, default_value: i64, metadata: Option<AttributeMetadata>)
        requires
            old(self).wf(),
        ensures
            final (self).wf(),
            final (self).spec_has_attribute(owner, name@),
            final (self).spec_lookup(owner, name@) == Some(
                AttributeData { base_value: default_value, current_value: default_value },
            ),
            final (self).entries@[final (self).spec_index_of(owner, name@)].metadata == metadata,
            forall|o: u64, n: Seq<char>|
                !(o == owner && n == name@) ==> final (self).spec_lookup(o, n) == old(
                    self,
                ).spec_lookup(o, n),
            forall|o: u64, n: Seq<char>|
                !(o == owner && n == name@) && old(self).spec_has_attribute(o, n) ==> final (self).entries@[final (self).spec_index_of(
                    o,
                    n,
                )] == old(self).entries@[old(self).spec_index_of(o, n)],
            final (self).entries@.len() >= old(self).entries@.len(),
    {
        let data = AttributeData::new(default_value);
        match self.find_attribute(owner, name) {
            Some(i) => {
                self.entries[i] = AttributeEntry { owner, name: AttributeName::new(name), data, metadata };
                proof {
                    assert(forall|j: int|
                        0 <= j < self.entries@.len() ==> self.entries@[j].owner == old(
                            self,
                        ).entries@[j].owner && self.entries@[j].name@ == old(
                            self,
                        ).entries@[j].name@);
                    assert(self.entries@[i as int].owner == owner && self.entries@[i as int].name@
                        == name@);
                    assert(self.spec_has_attribute(owner, name@));
                    let k = self.spec_index_of(owner, name@);
                    assert(k == i);
                    self.lemma_lookup_frame(old(self), owner, name@);
                }
            },
            None => {
                self.entries.push(AttributeEntry { owner, name: AttributeName::new(name), data, metadata });
                proof {
                    let last = self.entries@.len() - 1;
                    assert(self.entries@[last].owner == owner && self.entries@[last].name@
                        == name@);
                    assert(self.spec_has_attribute(owner, name@));
                    let k = self.spec_index_of(owner, name@);
                    assert(k == last);
                    self.lemma_lookup_frame(old(self), owner, name@);
                }
            },
        }
    }

    /// After changing or adding only the row of one key, every other key
    /// still looks up the same value.
    proof fn lemma_lookup_frame(&self, prev: &Self, owner: u64, name: Seq<char>)
        requires
            prev.wf(),
            self.entries@.len() == prev.entries@.len() || self.entries@.len() == prev.entries@.len()
                + 1,
            forall|j: int|
                0 <= j < prev.entries@.len() && !(prev.entries@[j].owner == owner
                    && prev.entries@[j].name@ == name) ==> self.entries@[j] == prev.entries@[j],
            forall|j: int|
                0 <= j < self.entries@.len() && !(self.entries@[j].owner == owner
                    && self.entries@[j].name@ == name) ==> j < prev.entries@.len()
                    && self.entries@[j] == prev.entries@[j],
        ensures
            forall|o: u64, n: Seq<char>|
                !(o == owner && n == name) ==> (self.spec_has_attribute(o, n)
                    == prev.spec_has_attribute(o, n) && self.spec_lookup(o, n) == prev.spec_lookup(
                    o,
                    n,
                ) && (prev.spec_has_attribute(o, n) ==> self.entries@[self.spec_index_of(o, n)]
                    == prev.entries@[prev.spec_index_of(o, n)])),
    {
        assert forall|o: u64, n: Seq<char>| !(o == owner && n == name) implies (self.spec_has_attribute(
            o,
            n,
        ) == prev.spec_has_attribute(o, n) && self.spec_lookup(o, n) == prev.spec_lookup(o, n) && (
        prev.spec_has_attribute(o, n) ==> self.entries@[self.spec_index_of(o, n)]
            == prev.entries@[prev.spec_index_of(o, n)])) by {
            if self.spec_has_attribute(o, n) {
                let i = self.spec_index_of(o, n);
                assert(prev.entries@[i] == self.entries@[i]);
                assert(prev.spec_has_attribute(o, n));
            }
            if prev.spec_has_attribute(o, n) {
                let i = prev.spec_index_of(o, n);
                assert(self.entries@[i] == prev.entries@[i]);
                assert(self.spec_has_attribute(o, n));
            }
            if self.spec_has_attribute(o, n) && prev.spec_has_attribute(o, n) {
                let i = self.spec_index_of(o, n);
                let j = prev.spec_index_of(o, n);
                assert(prev.entries@[i].owner == o && prev.entries@[i].name@ == n);
                if i != j {
                    assert(false);
                }
                assert(self.entries@[i] == prev.entries@[j]);
            }
        }
    }

    /// Reads the current value of an owner's attribute.
    pub fn get_current(&self, owner: u64, name: &str) -> (r: Option<i64>)
        requires
            self.wf(),
        ensures
            r == match self.spec_lookup(owner, name@) {
                Some(d) => Some(d.current_value),
                None => None,
            },
    {
        match self.find_attribute(owner, name) {
            Some(i) => {
                proof {
                    let k = self.spec_index_of(owner, name@);
                    assert(self.entries@[k] == self.entries@[i as int]);
                }
                Some(self.entries[i].data.current_value)
            },
            None => None,
        }
    }

    /// Sets the base value of an owner's attribute, clamped to its bounds;
    /// the current value follows. This is a permanent change usable for
    /// leveling. Returns whether the attribute was found.
    pub fn set_base(&mut self, owner: u64, name: &str, value: i64) -> (found: bool)
        requires
            old(self).wf(),
        ensures
            final (self).wf(),
            found == old(self).spec_has_attribute(owner, name@),
            found ==> final (self).spec_lookup(owner, name@) == Some(
                AttributeData {
                    base_value: spec_clamp_value(
                        old(self).entries@[old(self).spec_index_of(owner, name@)].metadata,
                        value as int,
                    ) as i64,
                    current_value: spec_clamp_value(
                        old(self).entries@[old(self).spec_index_of(owner, name@)].metadata,
                        value as int,
                    ) as i64,
                },
            ),
            !found ==> *final (self) == *old(self),
            forall|o: u64, n: Seq<char>|
                !(o == owner && n == name@) ==> final (self).spec_lookup(o, n) == old(
                    self,
                ).spec_lookup(o, n),
            final (self).entries@.len() == old(self).entries@.len(),
    {
        match self.find_attribute(owner, name) {
            Some(i) => {
                proof {
                    let k = self.spec_index_of(owner, name@);
                    assert(self.entries@[k] == self.entries@[i as int]);
                }
                let clamped = match &self.entries[i].metadata {
                    Some(m) => m.clamp(value),
                    None => value,
                };
                self.entries[i].data.base_value = clamped;
                self.entries[i].data.current_value = clamped;
                proof {
                    self.lemma_lookup_frame(old(self), owner, name@);
                    let k = final (self).spec_index_of(owner, name@);
                    assert(final (self).entries@[k] == final (self).entries@[i as int]);
                }
                true
            },
            None => false,
        }
    }

    /// Adds a delta to the base value of an owner's attribute, saturating;
    /// the current value is untouched. A missing attribute is left alone.
    /// This is how AddBase modifiers fold into the base permanently.
    pub fn add_to_base(&mut self, owner: u64, name: &str, delta: i64) -> (found: bool)
        requires
            old(self).wf(),
        ensures
            final (self).wf(),
            found == old(self).spec_has_attribute(owner, name@),
            final (self).entries@.len() == old(self).entries@.len(),
            forall|j: int|
                0 <= j < old(self).entries@.len() ==> {
                    let prev = #[trigger] old(self).entries@[j];
                    let now = final (self).entries@[j];
                    now.owner == prev.owner && now.name@ == prev.name@ && now.metadata
                        == prev.metadata && now.data.current_value == prev.data.current_value
                        && now.data.base_value as int == (if prev.owner == owner && prev.name@
                        == name@ {
                        crate::math::spec_sat_add(prev.data.base_value as int, delta as int)
                    } else {
                        prev.data.base_value as int
                    })
                },
    {
        match self.find_attribute(owner, name) {
            Some(i) => {
                let folded = crate::math::sat_add(self.entries[i].data.base_value, delta);
                self.entries[i].data.base_value = folded;
                proof {
                    assert(forall|j: int|
                        0 <= j < old(self).entries@.len() && j != i ==> final (self).entries@[j]
                            == old(self).entries@[j]);
                }
                true
            },
            None => false,
        }
    }

    /// Whether every row is a fixed point of the clamping pass.
    pub open spec fn spec_all_clamped(&self) -> bool {
        forall|i: int|
            0 <= i < self.entries@.len() ==> spec_clamp_entry(#[trigger] self.entries@[i])
                == self.entries@[i]
    }

    /// Re-clamps every attribute's base and current value to its bounds.
    ///
    /// Invoked once per tick after all mutation for that tick has occurred.
    /// The pass is idempotent: a store whose rows are already clamped is
    /// left exactly as it was.
    pub fn clamp_all(&mut self)
        ensures
            final (self).entries@.len() == old(self).entries@.len(),
            forall|i: int|
                0 <= i < old(self).entries@.len() ==> final (self).entries@[i] == spec_clamp_entry(
                    #[trigger] old(self).entries@[i],
                ),
            final (self).spec_all_clamped(),
            old(self).spec_all_clamped() ==> final (self).entries@ =~= old(self).entries@,
            final (self).wf() == old(self).wf(),
    {
        let mut i: usize = 0;
        while i < self.entries.len()
            invariant
                0 <= i <= self.entries@.len(),
                self.entries@.len() == old(self).entries@.len(),
                forall|j: int|
                    i <= j < self.entries@.len() ==> self.entries@[j] == old(self).entries@[j],
                forall|j: int|
                    0 <= j < i ==> self.entries@[j] == spec_clamp_entry(
                        #[trigger] old(self).entries@[j],
                    ),
            decreases self.entries@.len() - i,
        {
            let clamped = match &self.entries[i].metadata {
                Some(m) => Some((m.clamp(self.entries[i].data.base_value), m.clamp(
                    self.entries[i].data.current_value,
                ))),
                None => None,
            };
            if let Some((base, current)) = clamped {
                self.entries[i].data.base_value = base;
                self.entries[i].data.current_value = current;
            }
            i = i + 1;
        }
        proof {
            assert forall|j: int|
                0 <= j < self.entries@.len() implies spec_clamp_entry(#[trigger] self.entries@[j])
                == self.entries@[j] by {
                lemma_clamp_entry_idempotent(old(self).entries@[j]);
            }
            assert(final (self).wf() == old(self).wf()) by {
                assert(forall|j: int|
                    0 <= j < old(self).entries@.len() ==> final (self).entries@[j].owner == old(
                        self,
                    ).entries@[j].owner && final (self).entries@[j].name@ == old(
                        self,
                    ).entries@[j].name@);
            }
        }
    }

    /// All attributes of one owner, as (row index, name, value pair) triples.
    pub fn get_owner_attributes(&self, owner: u64) -> (r: Vec<(usize, String, AttributeData)>)
        ensures
            forall|k: int|
                0 <= k < r@.len() ==> {
                    let (i, n, d) = #[trigger] r@[k];
                    0 <= i < self.entries@.len() && self.entries@[i as int].owner == owner && n@
                        == self.entries@[i as int].name@ && d == self.entries@[i as int].data
                },
            forall|i: int|
                0 <= i < self.entries@.len() && self.entries@[i].owner == owner ==> exists|k: int|
                    0 <= k < r@.len() && (#[trigger] r@[k]).0 == i,
    {
        let mut out: Vec<(usize, String, AttributeData)> = Vec::new();
        let mut i: usize = 0;
        while i < self.entries.len()
            invariant
                0 <= i <= self.entries@.len(),
                forall|k: int|
                    0 <= k < out@.len() ==> {
                        let (idx, n, d) = #[trigger] out@[k];
                        0 <= idx < self.entries@.len() && self.entries@[idx as int].owner == owner
                            && n@ == self.entries@[idx as int].name@ && d
                            == self.entries@[idx as int].data
                    },
                forall|j: int|
                    0 <= j < i && self.entries@[j].owner == owner ==> exists|k: int|
                        0 <= k < out@.len() && (#[trigger] out@[k]).0 == j,
            decreases self.entries@.len() - i,
        {
            let ghost prev_out = out@;
            if self.entries[i].owner == owner {
                let name = self.entries[i].name.as_str().to_owned();
                out.push((i, name, self.entries[i].data));
            }
            proof {
                assert forall|j: int|
                    0 <= j < i + 1 && self.entries@[j].owner == owner implies exists|k: int|
                    0 <= k < out@.len() && (#[trigger] out@[k]).0 == j by {
                    if j < i {
                        let k = choose|k: int|
                            0 <= k < prev_out.len() && (#[trigger] prev_out[k]).0 == j;
                        assert(0 <= k < out@.len() && (out@[k]).0 == j);
                    } else {
                        let k = out@.len() - 1;
                        assert(0 <= k < out@.len() && (out@[k]).0 == j);
                    }
                }
            }
            i = i + 1;
        }
        out
    }

    /// Reads the value pair of an owner's attribute by name.
    pub fn find_attribute_by_name(&self, owner: u64, attribute_name: &str) -> (r: Option<
        (usize, AttributeData),
    >)
        requires
            self.wf(),
        ensures
            match r {
                Some((i, d)) => 0 <= i < self.entries@.len() && self.entries@[i as int].owner
                    == owner && self.entries@[i as int].name@ == attribute_name@ && d
                    == self.entries@[i as int].data,
                None => !self.spec_has_attribute(owner, attribute_name@),
            },
    {
        match self.find_attribute(owner, attribute_name) {
            Some(i) => Some((i, self.entries[i].data)),
            None => None,
        }
    }
}

/// Clamps a mathematical value with optional metadata bounds.
pub open spec fn spec_clamp_value(metadata: Option<AttributeMetadata>, v: int) -> int {
    match metadata {
        Some(m) => m.spec_clamp(v),
        None => v,
    }
}

/// Hooks around attribute value changes, for embedders to implement:
/// clamping before a change, reactions after. The defaults do nothing.
pub trait GameplayAttribute {
    /// Called before the current value changes; may adjust the incoming
    /// value, e.g. to cap one attribute by another.
    fn pre_attribute_change(&mut self, _old_value: i64, _new_value: &mut i64) {
    }

    /// Called after the current value changed; may trigger reactions.
    fn post_attribute_change(&mut self, _old_value: i64, _new_value: i64) {
    }

    /// Called before the base value changes; meant for clamping only, not
    /// for gameplay reactions.
    fn pre_attribute_base_change(&mut self, _old_value: i64, _new_value: &mut i64) {
    }

    /// Called after the base value changed.
    fn post_attribute_base_change(&mut self, _old_value: i64, _new_value: i64) {
    }
}

/// One row of an attribute set table: a name with its bounds and default.
#[derive(Debug, Clone, Copy)]
pub struct AttributeSetEntry {
    /// The attribute's name.
    pub name: &'static str,
    /// Optional bounds for the attribute.
    pub metadata: Option<AttributeMetadata>,
    /// The default value the attribute starts at.
    pub default_value: i64,
}

/// An attribute set as a data table: names, bounds and defaults authored at
/// content time, with attribute creation a pure function over the table.
#[derive(Debug)]
pub struct AttributeSetDefinition {
    /// The table rows, in creation order.
    pub attributes: Vec<AttributeSetEntry>,
}

impl AttributeSetDefinition {
    /// Creates an empty attribute set definition.
    pub fn new() -> (d: Self)
        ensures
            d.attributes@.len() == 0,
    {
        AttributeSetDefinition { attributes: Vec::new() }
    }

    /// Adds an attribute to the set.
    pub fn define(self, name: &'static str, metadata: Option<AttributeMetadata>, default_value: i64) -> (d: Self)
        ensures
            d.attributes@ == self.attributes@.push(
                AttributeSetEntry { name, metadata, default_value },
            ),
    {
        let mut out = self;
        out.attributes.push(AttributeSetEntry { name, metadata, default_value });
        out
    }

    /// Returns the names of all attributes in this set, in order.
    pub fn attribute_names(&self) -> (r: Vec<String>)
        ensures
            r@.len() == self.attributes@.len(),
            forall|i: int|
                0 <= i < r@.len() ==> (#[trigger] r@[i])@ == self.attributes@[i].name@,
    {
        let mut out: Vec<String> = Vec::new();
        let mut i: usize = 0;
        while i < self.attributes.len()
            invariant
                0 <= i <= self.attributes@.len(),
                out@.len() == i,
                forall|t: int|
                    0 <= t < i ==> (#[trigger] out@[t])@ == self.attributes@[t].name@,
            decreases self.attributes@.len() - i,
        {
            out.push(self.attributes[i].name.to_owned());
            i = i + 1;
        }
        out
    }

    /// Returns the metadata of the first attribute with the name.
    pub fn attribute_metadata(&self, name: &str) -> (r: Option<AttributeMetadata>)
        ensures
            match r {
                Some(m) => exists|i: int|
                    0 <= i < self.attributes@.len()
                        && (#[trigger] self.attributes@[i]).name@ == name@
                        && self.attributes@[i].metadata == Some(m),
                None => forall|i: int|
                    0 <= i < self.attributes@.len() ==> !((
                    #[trigger] self.attributes@[i]).name@ == name@
                        && self.attributes@[i].metadata is Some),
            },
    {
        let mut i: usize = 0;
        while i < self.attributes.len()
            invariant
                0 <= i <= self.attributes@.len(),
                forall|t: int|
                    0 <= t < i ==> !((#[trigger] self.attributes@[t]).name@ == name@
                        && self.attributes@[t].metadata is Some),
            decreases self.attributes@.len() - i,
        {
            if str_eq(self.attributes[i].name, name) {
                match self.attributes[i].metadata {
                    Some(m) => {
                        return Some(m);
                    },
                    None => {},
                }
            }
            i = i + 1;
        }
        None
    }

    /// Returns the default value of the first attribute with the name, or 0
    /// for a name the set does not define.
    pub fn default_value(&self, name: &str) -> (r: i64)
        ensures
            ({
                if exists|i: int|
                    0 <= i < self.attributes@.len()
                        && (#[trigger] self.attributes@[i]).name@ == name@ {
                    exists|i: int|
                        0 <= i < self.attributes@.len()
                            && (#[trigger] self.attributes@[i]).name@ == name@
                            && self.attributes@[i].default_value == r
                } else {
                    r == 0
                }
            }),
    {
        let mut i: usize = 0;
        while i < self.attributes.len()
            invariant
                0 <= i <= self.attributes@.len(),
                forall|t: int| 0 <= t < i ==> (#[trigger] self.attributes@[t]).name@ != name@,
            decreases self.attributes@.len() - i,
        {
            if str_eq(self.attributes[i].name, name) {
                return self.attributes[i].default_value;
            }
            i = i + 1;
        }
        0
    }

    /// Creates all attributes of this set on the owner: each named
    /// attribute exists afterwards with its default as both base and
    /// current value and with its metadata attached. A name defined twice
    /// keeps its last definition. Returns how many rows the table holds.
    pub fn create_attributes(&self, store: &mut AttributeStore, owner: u64) -> (created: usize)
        requires
            old(store).wf(),
        ensures
            final (store).wf(),
            created == self.attributes@.len(),
            forall|i: int|
                0 <= i < self.attributes@.len() ==> final (store).spec_has_attribute(
                    owner,
                    (#[trigger] self.attributes@[i]).name@,
                ),
            forall|i: int|
                0 <= i < self.attributes@.len() && (forall|j: int|
                    i < j < self.attributes@.len() ==> (#[trigger] self.attributes@[j]).name@
                        != self.attributes@[i].name@) ==> {
                    let e = #[trigger] self.attributes@[i];
                    &&& final (store).spec_lookup(owner, e.name@) == Some(
                        AttributeData {
                            base_value: e.default_value,
                            current_value: e.default_value,
                        },
                    )
                    &&& final (store).entries@[final (store).spec_index_of(owner, e.name@)].metadata
                        == e.metadata
                },
            forall|o: u64, n: Seq<char>|
                (forall|i: int|
                    0 <= i < self.attributes@.len() ==> !(o == owner
                        && (#[trigger] self.attributes@[i]).name@ == n)) ==> final (
                store).spec_lookup(o, n) == old(store).spec_lookup(o, n),
    {
        let mut i: usize = 0;
        while i < self.attributes.len()
            invariant
                0 <= i <= self.attributes@.len(),
                store.wf(),
                forall|t: int|
                    0 <= t < i ==> store.spec_has_attribute(
                        owner,
                        (#[trigger] self.attributes@[t]).name@,
                    ),
                forall|t: int|
                    0 <= t < i && (forall|j: int|
                        t < j < i ==> (#[trigger] self.attributes@[j]).name@
                            != self.attributes@[t].name@) ==> {
                        let e = #[trigger] self.attributes@[t];
                        &&& store.spec_lookup(owner, e.name@) == Some(
                            AttributeData {
                                base_value: e.default_value,
                                current_value: e.default_value,
                            },
                        )
                        &&& store.entries@[store.spec_index_of(owner, e.name@)].metadata
                            == e.metadata
                    },
                forall|o: u64, n: Seq<char>|
                    (forall|t: int|
                        0 <= t < i ==> !(o == owner && (#[trigger] self.attributes@[t]).name@
                            == n)) ==> store.spec_lookup(o, n) == old(store).spec_lookup(o, n),
            decreases self.attributes@.len() - i,
        {
            let ghost pre = *store;
            store.create(
                owner,
                self.attributes[i].name,
                self.attributes[i].default_value,
                self.attributes[i].metadata,
            );
            proof {
                assert forall|t: int|
                    0 <= t < i + 1 implies store.spec_has_attribute(
                    owner,
                    (#[trigger] self.attributes@[t]).name@,
                ) by {
                    if t < i && self.attributes@[t].name@ != self.attributes@[i as int].name@ {
                        assert(pre.spec_has_attribute(owner, self.attributes@[t].name@));
                        assert(store.spec_lookup(owner, self.attributes@[t].name@)
                            == pre.spec_lookup(owner, self.attributes@[t].name@));
                    }
                }
                assert forall|t: int|
                    0 <= t < i + 1 && (forall|j: int|
                        t < j < i + 1 ==> (#[trigger] self.attributes@[j]).name@
                            != self.attributes@[t].name@) implies {
                    let e = #[trigger] self.attributes@[t];
                    &&& store.spec_lookup(owner, e.name@) == Some(
                        AttributeData {
                            base_value: e.default_value,
                            current_value: e.default_value,
                        },
                    )
                    &&& store.entries@[store.spec_index_of(owner, e.name@)].metadata == e.metadata
                } by {
                    let e = self.attributes@[t];
                    if t < i {
                        assert(e.name@ != self.attributes@[i as int].name@);
                        assert(pre.spec_lookup(owner, e.name@) == Some(
                            AttributeData {
                                base_value: e.default_value,
                                current_value: e.default_value,
                            },
                        ));
                        assert(pre.spec_has_attribute(owner, e.name@));
                        assert(store.entries@[store.spec_index_of(owner, e.name@)]
                            == pre.entries@[pre.spec_index_of(owner, e.name@)]);
                    }
                }
            }
            i = i + 1;
        }
        self.attributes.len()
    }
}

} // verus!
