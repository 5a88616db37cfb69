//! Gameplay tags, tag-count multisets and tag requirement checking.
//!
//! A tag is a plain name such as `State.Stunned`. Hierarchical resolution
//! (a parent tag implied by a child) is the caller's concern: callers hand
//! the library already-resolved tag names, and every match here is exact.
//! Each owner carries a tag-count multiset; effects grant tags on
//! application and revoke them on removal, so the same tag can be held
//! several times at once.

use vstd::prelude::*;

verus! {

/// Relies on str's PartialEq: string slices compare equal exactly when
/// their character sequences are equal.
#[verifier::external_body]
pub(crate) fn str_eq(a: &str, b: &str) -> (r: bool)
    ensures
        r == (a@ == b@),
{
    a == b
}

/// A gameplay tag: a plain, already-resolved name.
#[derive(Debug)]
pub struct GameplayTag {
    /// The full tag name, such as `State.Stunned`.
    pub name: String,
}

impl View for GameplayTag {
    type V = Seq<char>;

    open spec fn view(&self) -> Seq<char> {
        self.name@
    }
}

impl Clone for GameplayTag {
    fn clone(&self) -> (r: Self)
        ensures
            r@ == self@,
    {
        GameplayTag { name: self.name.clone() }
    }
}

impl GameplayTag {
    /// Creates a tag from its name.
    pub fn new(name: &str) -> (t: Self)
        ensures
            t@ == name@,
    {
        GameplayTag { name: name.to_owned() }
    }

    /// Returns true when the two tags carry exactly the same name.
    pub fn matches_tag_exact(&self, other: &GameplayTag) -> (r: bool)
        ensures
            r == (self@ == other@),
    {
        str_eq(self.name.as_str(), other.name.as_str())
    }
}

/// How many of the tags in `s` carry the name `name`.
pub open spec fn tag_occurrences(s: Seq<GameplayTag>, name: Seq<char>) -> int
    decreases s.len(),
{
    if s.len() == 0 {
        0
    } else {
        (if s.last()@ == name {
            1int
        } else {
            0int
        }) + tag_occurrences(s.drop_last(), name)
    }
}

/// Counting tags never goes negative.
pub proof fn lemma_tag_occurrences_nonneg(s: Seq<GameplayTag>, name: Seq<char>)
    ensures
        tag_occurrences(s, name) >= 0,
    decreases s.len(),
{
    if s.len() > 0 {
        lemma_tag_occurrences_nonneg(s.drop_last(), name);
    }
}

/// Removing the tag at `i` lowers its own count by one and leaves every
/// other count unchanged.
proof fn lemma_tag_occurrences_remove(s: Seq<GameplayTag>, i: int, name: Seq<char>)
    requires
        0 <= i < s.len(),
    ensures
        tag_occurrences(s.remove(i), name) == tag_occurrences(s, name) - (if s[i]@ == name {
            1int
        } else {
            0int
        }),
    decreases s.len(),
{
    if i == s.len() - 1 {
        assert(s.remove(i) =~= s.drop_last());
    } else {
        assert(s.remove(i).drop_last() =~= s.drop_last().remove(i));
        assert(s.remove(i).last() == s.last());
        lemma_tag_occurrences_remove(s.drop_last(), i, name);
    }
}

/// A multiset of granted tags: one entry per grant.
///
/// Counts are per exact name; the same tag granted by two effects is held
/// twice and survives the removal of one of them.
#[derive(Debug)]
pub struct GameplayTagCountContainer {
    /// One entry per live grant.
    pub tags: Vec<GameplayTag>,
}

impl GameplayTagCountContainer {
    /// How many times the name is currently granted.
    pub open spec fn spec_tag_count(&self, name: Seq<char>) -> int {
        tag_occurrences(self.tags@, name)
    }

    /// Whether the name is currently granted at all.
    pub open spec fn spec_has_tag(&self, name: Seq<char>) -> bool {
        self.spec_tag_count(name) > 0
    }

    /// Creates an empty container.
    pub fn new() -> (c: Self)
        ensures
            forall|name: Seq<char>| c.spec_tag_count(name) == 0,
    {
        GameplayTagCountContainer { tags: Vec::new() }
    }

    /// How many times the tag is currently granted.
    pub fn tag_count(&self, tag: &GameplayTag) -> (n: u64)
        ensures
            n as int == self.spec_tag_count(tag@),
    {
        let s = &self.tags;
        let mut acc: u64 = 0;
        let mut i: usize = 0;
        proof {
            assert(s@.take(0) =~= Seq::<GameplayTag>::empty());
        }
        while i < s.len()
            invariant
                0 <= i <= s@.len(),
                acc as int == tag_occurrences(s@.take(i as int), tag@),
                acc <= i,
            decreases s@.len() - i,
        {
            proof {
                assert(s@.take(i + 1).drop_last() =~= s@.take(i as int));
                assert(s@.take(i + 1).last() == s@[i as int]);
            }
            if str_eq(s[i].name.as_str(), tag.name.as_str()) {
                acc = acc + 1;
            }
            i = i + 1;
        }
        proof {
            assert(s@.take(s@.len() as int) =~= s@);
        }
        acc
    }

    /// Whether the tag is currently granted at all, by exact name.
    pub fn has_matching_gameplay_tag(&self, tag: &GameplayTag) -> (r: bool)
        ensures
            r == self.spec_has_tag(tag@),
    {
        self.tag_count(tag) > 0
    }

    /// Grants the tag once: its count rises by one, every other count is
    /// unchanged.
    pub fn add_tag(&mut self, tag: &GameplayTag)
        ensures
            final (self).spec_tag_count(tag@) == old(self).spec_tag_count(tag@) + 1,
            forall|name: Seq<char>|
                name != tag@ ==> final (self).spec_tag_count(name) == old(self).spec_tag_count(
                    name,
                ),
    {
        let copy = GameplayTag::new(tag.name.as_str());
        self.tags.push(copy);
        proof {
            assert(forall|name: Seq<char>|
                self.tags@.drop_last() =~= old(self).tags@ && #[trigger] tag_occurrences(
                    self.tags@,
                    name,
                ) == tag_occurrences(old(self).tags@, name) + (if tag@ == name {
                    1int
                } else {
                    0int
                }));
        }
    }

    /// Revokes one grant of the tag: if it is held its count drops by one,
    /// otherwise nothing changes. Returns whether a grant was removed.
    pub fn remove_tag(&mut self, tag: &GameplayTag) -> (removed: bool)
        ensures
            removed == old(self).spec_has_tag(tag@),
            removed ==> final (self).spec_tag_count(tag@) == old(self).spec_tag_count(tag@) - 1,
            !removed ==> *final (self) == *old(self),
            forall|name: Seq<char>|
                name != tag@ ==> final (self).spec_tag_count(name) == old(self).spec_tag_count(
                    name,
                ),
    {
        let mut i: usize = 0;
        while i < self.tags.len()
            invariant
                0 <= i <= self.tags@.len(),
                *self == *old(self),
                forall|j: int| 0 <= j < i ==> self.tags@[j]@ != tag@,
            decreases self.tags@.len() - i,
        {
            if str_eq(self.tags[i].name.as_str(), tag.name.as_str()) {
                proof {
                    lemma_tag_occurrences_remove(self.tags@, i as int, tag@);
                    lemma_tag_occurrences_nonneg(self.tags@.remove(i as int), tag@);
                    assert(forall|name: Seq<char>|
                        name != tag@ ==> #[trigger] tag_occurrences(
                            self.tags@.remove(i as int),
                            name,
                        ) == tag_occurrences(self.tags@, name)) by {
                        assert forall|name: Seq<char>| name != tag@ implies #[trigger] tag_occurrences(
                            self.tags@.remove(i as int),
                            name,
                        ) == tag_occurrences(self.tags@, name) by {
                            lemma_tag_occurrences_remove(self.tags@, i as int, name);
                        }
                    }
                }
                self.tags.remove(i);
                return true;
            }
            i = i + 1;
        }
        proof {
            lemma_tag_occurrences_no_match(self.tags@, tag@);
        }
        false
    }
}

/// A sequence without the name has count zero.
proof fn lemma_tag_occurrences_no_match(s: Seq<GameplayTag>, name: Seq<char>)
    requires
        forall|j: int| 0 <= j < s.len() ==> s[j]@ != name,
    ensures
        tag_occurrences(s, name) == 0,
    decreases s.len(),
{
    if s.len() > 0 {
        lemma_tag_occurrences_no_match(s.drop_last(), name);
    }
}

} // verus!
