//! Tag requirement checking utilities.
//!
//! Requirements are used throughout the framework for activation and
//! application conditions: tags that must be present, tags that must be
//! absent, and any-of / all-of groups.

use vstd::prelude::*;

use crate::tags::GameplayTag;
use crate::tags::GameplayTagCountContainer;
use crate::tags::str_eq;

verus! {

/// Requirements for gameplay tags.
///
/// This structure defines which tags must be present, which must be absent,
/// and how many of each are required.
#[derive(Debug)]
pub struct TagRequirements {
    /// Tags that must be present (any of these).
    pub require_tags: Vec<GameplayTag>,
    /// Tags that must not be present (none of these).
    pub ignore_tags: Vec<GameplayTag>,
    /// Tags where at least one must be present.
    pub require_any_tags: Vec<GameplayTag>,
    /// Tags where all must be present.
    pub require_all_tags: Vec<GameplayTag>,
}

/// Whether at least one tag of `group` is granted in `tags`.
pub open spec fn spec_any_tag_held(group: Seq<GameplayTag>, tags: &GameplayTagCountContainer) -> bool {
    exists|i: int| 0 <= i < group.len() && tags.spec_has_tag(group[i]@)
}

/// Whether every tag of `group` is granted in `tags`.
pub open spec fn spec_all_tags_held(group: Seq<GameplayTag>, tags: &GameplayTagCountContainer) -> bool {
    forall|i: int| 0 <= i < group.len() ==> tags.spec_has_tag(group[i]@)
}

/// Searches a tag group for one that is granted in the container.
fn any_tag_held(group: &Vec<GameplayTag>, tags: &GameplayTagCountContainer) -> (r: bool)
    ensures
        r == spec_any_tag_held(group@, tags),
{
    let mut i: usize = 0;
    while i < group.len()
        invariant
            0 <= i <= group@.len(),
            forall|j: int| 0 <= j < i ==> !tags.spec_has_tag(group@[j]@),
        decreases group@.len() - i,
    {
        if tags.has_matching_gameplay_tag(&group[i]) {
            return true;
        }
        i = i + 1;
    }
    false
}

impl TagRequirements {
    /// Whether the given tag container satisfies these requirements: no
    /// ignored tag is held; when a require group is nonempty at least one
    /// of its tags is held; likewise for the any group; and every tag of
    /// the all group is held.
    pub open spec fn spec_requirements_met(&self, tags: &GameplayTagCountContainer) -> bool {
        &&& !spec_any_tag_held(self.ignore_tags@, tags)
        &&& self.require_tags@.len() > 0 ==> spec_any_tag_held(self.require_tags@, tags)
        &&& self.require_any_tags@.len() > 0 ==> spec_any_tag_held(self.require_any_tags@, tags)
        &&& spec_all_tags_held(self.require_all_tags@, tags)
    }

    /// Creates a new empty tag requirements.
    pub fn new() -> (r: Self)
        ensures
            r.require_tags@.len() == 0,
            r.ignore_tags@.len() == 0,
            r.require_any_tags@.len() == 0,
            r.require_all_tags@.len() == 0,
    {
        TagRequirements {
            require_tags: Vec::new(),
            ignore_tags: Vec::new(),
            require_any_tags: Vec::new(),
            require_all_tags: Vec::new(),
        }
    }

    /// Adds a required tag (any of these must be present).
    pub fn require_tag(self, tag: GameplayTag) -> (r: Self)
        ensures
            r.require_tags@ == self.require_tags@.push(tag),
            r.ignore_tags@ == self.ignore_tags@,
            r.require_any_tags@ == self.require_any_tags@,
            r.require_all_tags@ == self.require_all_tags@,
    {
        let mut out = self;
        out.require_tags.push(tag);
        out
    }

    /// Adds an ignored tag (this must not be present).
    pub fn ignore_tag(self, tag: GameplayTag) -> (r: Self)
        ensures
            r.ignore_tags@ == self.ignore_tags@.push(tag),
            r.require_tags@ == self.require_tags@,
            r.require_any_tags@ == self.require_any_tags@,
            r.require_all_tags@ == self.require_all_tags@,
    {
        let mut out = self;
        out.ignore_tags.push(tag);
        out
    }

    /// Adds a tag to the "require any" list.
    pub fn require_any_tag(self, tag: GameplayTag) -> (r: Self)
        ensures
            r.require_any_tags@ == self.require_any_tags@.push(tag),
            r.require_tags@ == self.require_tags@,
            r.ignore_tags@ == self.ignore_tags@,
            r.require_all_tags@ == self.require_all_tags@,
    {
        let mut out = self;
        out.require_any_tags.push(tag);
        out
    }

    /// Adds a tag to the "require all" list.
    pub fn require_all_tag(self, tag: GameplayTag) -> (r: Self)
        ensures
            r.require_all_tags@ == self.require_all_tags@.push(tag),
            r.require_tags@ == self.require_tags@,
            r.ignore_tags@ == self.ignore_tags@,
            r.require_any_tags@ == self.require_any_tags@,
    {
        let mut out = self;
        out.require_all_tags.push(tag);
        out
    }

    /// Checks if the given tag container satisfies these requirements.
    pub fn are_requirements_met(&self, tags: &GameplayTagCountContainer) -> (r: bool)
        ensures
            r == self.spec_requirements_met(tags),
    {
        // Check ignore tags - if any are present, fail
        if any_tag_held(&self.ignore_tags, tags) {
            return false;
        }
        // Check require tags - at least one must be present (if any specified)
        if self.require_tags.len() > 0 && !any_tag_held(&self.require_tags, tags) {
            return false;
        }
        // Check require_any_tags - at least one must be present (if any specified)
        if self.require_any_tags.len() > 0 && !any_tag_held(&self.require_any_tags, tags) {
            return false;
        }
        // Check require_all_tags - all must be present
        let mut i: usize = 0;
        while i < self.require_all_tags.len()
            invariant
                0 <= i <= self.require_all_tags@.len(),
                forall|j: int| 0 <= j < i ==> tags.spec_has_tag(self.require_all_tags@[j]@),
            decreases self.require_all_tags@.len() - i,
        {
            if !tags.has_matching_gameplay_tag(&self.require_all_tags[i]) {
                assert(!spec_all_tags_held(self.require_all_tags@, tags)) by {
                    assert(0 <= i < self.require_all_tags@.len() && !tags.spec_has_tag(
                        self.require_all_tags@[i as int]@,
                    ));
                }
                return false;
            }
            i = i + 1;
        }
        true
    }

    /// Returns true if there are no requirements.
    pub fn is_empty(&self) -> (r: bool)
        ensures
            r == (self.require_tags@.len() == 0 && self.ignore_tags@.len() == 0
                && self.require_any_tags@.len() == 0 && self.require_all_tags@.len() == 0),
    {
        self.require_tags.len() == 0 && self.ignore_tags.len() == 0
            && self.require_any_tags.len() == 0 && self.require_all_tags.len() == 0
    }
}

} // verus!
