//! Gameplay cue bookkeeping: registration, batching and active-cue
//! tracking.
//!
//! Cue presentation (visual and audio playback) is the embedding
//! application's concern; the library keeps the registry of known cues,
//! the queue of pending executions while batching, and which actors
//! currently present each cue.

use vstd::prelude::*;

use crate::tags::GameplayTag;

verus! {

/// How a cue execution is meant to behave.
#[derive(Debug, Clone, Copy, PartialEq, Eq, Structural, Hash)]
pub enum GameplayCueEvent {
    /// Cue is executed once when it becomes active.
    OnActive,
    /// Cue executes continuously while active.
    WhileActive,
    /// Cue is executed once (similar to OnActive, but for instant effects).
    Executed,
    /// Cue is removed/cleaned up.
    Removed,
}

/// Parameters passed to gameplay cue handlers. Positions and magnitudes
/// are fixed-point thousandths.
#[derive(Debug)]
pub struct GameplayCueParameters {
    /// Normalized magnitude (0 to 1 in fixed-point).
    pub normalized_magnitude: i64,
    /// Raw magnitude value.
    pub raw_magnitude: i64,
    /// Location where the cue should be spawned, as (x, y, z).
    pub location: (i64, i64, i64),
    /// Normal vector (for surface effects), as (x, y, z).
    pub normal: (i64, i64, i64),
    /// The entity that instigated this cue.
    pub instigator: Option<u64>,
    /// The entity that caused the effect (e.g., projectile).
    pub effect_causer: Option<u64>,
    /// The target entity.
    pub target: Option<u64>,
}

impl GameplayCueParameters {
    /// Creates cue parameters with zero magnitudes, the origin as location,
    /// the unit up vector as normal, and no entities.
    pub fn new() -> (p: Self)
        ensures
            p.normalized_magnitude == 0,
            p.raw_magnitude == 0,
            p.location == (0i64, 0i64, 0i64),
            p.normal == (0i64, 1000i64, 0i64),
            p.instigator is None,
            p.effect_causer is None,
            p.target is None,
    {
        GameplayCueParameters {
            normalized_magnitude: 0,
            raw_magnitude: 0,
            location: (0, 0, 0),
            normal: (0, 1000, 0),
            instigator: None,
            effect_causer: None,
            target: None,
        }
    }

    /// Sets the magnitude values.
    pub fn with_magnitude(self, raw: i64, normalized: i64) -> (p: Self)
        ensures
            p == (GameplayCueParameters { raw_magnitude: raw, normalized_magnitude: normalized, ..self }),
    {
        GameplayCueParameters { raw_magnitude: raw, normalized_magnitude: normalized, ..self }
    }

    /// Sets the location.
    pub fn with_location(self, location: (i64, i64, i64)) -> (p: Self)
        ensures
            p == (GameplayCueParameters { location, ..self }),
    {
        GameplayCueParameters { location, ..self }
    }

    /// Sets the normal.
    pub fn with_normal(self, normal: (i64, i64, i64)) -> (p: Self)
        ensures
            p == (GameplayCueParameters { normal, ..self }),
    {
        GameplayCueParameters { normal, ..self }
    }

    /// Sets the instigator.
    pub fn with_instigator(self, instigator: u64) -> (p: Self)
        ensures
            p == (GameplayCueParameters { instigator: Some(instigator), ..self }),
    {
        GameplayCueParameters { instigator: Some(instigator), ..self }
    }

    /// Sets the effect causer.
    pub fn with_effect_causer(self, causer: u64) -> (p: Self)
        ensures
            p == (GameplayCueParameters { effect_causer: Some(causer), ..self }),
    {
        GameplayCueParameters { effect_causer: Some(causer), ..self }
    }

    /// Sets the target.
    pub fn with_target(self, target: u64) -> (p: Self)
        ensures
            p == (GameplayCueParameters { target: Some(target), ..self }),
    {
        GameplayCueParameters { target: Some(target), ..self }
    }
}

/// Information about a registered cue notify.
#[derive(Debug)]
pub struct CueNotifyInfo {
    /// The tag this cue responds to.
    pub tag: GameplayTag,
    /// Whether this is a static cue (function-based) or actor-based.
    pub is_static: bool,
}

/// A cue execution queued while batching is active.
#[derive(Debug)]
pub struct PendingCueExecution {
    /// The cue tag to execute.
    pub cue_tag: GameplayTag,
    /// The event type.
    pub event_type: GameplayCueEvent,
    /// The parameters.
    pub parameters: GameplayCueParameters,
}

/// Request to trigger a gameplay cue.
#[derive(Debug)]
pub struct TriggerGameplayCueEvent {
    /// The cue tag to trigger.
    pub cue_tag: GameplayTag,
    /// The event type.
    pub event_type: GameplayCueEvent,
    /// The parameters.
    pub parameters: GameplayCueParameters,
}

/// One cue's live presentation actors.
#[derive(Debug)]
pub struct ActiveCueActors {
    /// The cue tag.
    pub tag: GameplayTag,
    /// The actors presenting it.
    pub actors: Vec<u64>,
}

/// The gameplay cue manager: registered cues, pending executions and
/// active cue actors.
#[derive(Debug)]
pub struct GameplayCueManager {
    /// The registered cues, at most one per tag name.
    pub loaded_cues: Vec<CueNotifyInfo>,
    /// The live presentation actors, grouped by tag.
    pub active_cues: Vec<ActiveCueActors>,
    /// Executions queued while batching.
    pub pending_cues: Vec<PendingCueExecution>,
    /// Whether batching is currently active.
    pub batching_active: bool,
}

impl GameplayCueManager {
    /// Whether a cue is registered under the tag name.
    pub open spec fn spec_has_cue(&self, name: Seq<char>) -> bool {
        exists|i: int| 0 <= i < self.loaded_cues@.len() && self.loaded_cues@[i].tag@ == name
    }

    /// The index of the cue registered under the tag name.
    pub open spec fn spec_cue_index(&self, name: Seq<char>) -> int {
        choose|i: int| 0 <= i < self.loaded_cues@.len() && self.loaded_cues@[i].tag@ == name
    }

    /// Registered tag names are unique, active-cue groups carry unique
    /// tags, and no group is empty.
    pub open spec fn wf(&self) -> bool {
        &&& forall|i: int, j: int|
            0 <= i < j < self.loaded_cues@.len() ==> self.loaded_cues@[i].tag@
                != self.loaded_cues@[j].tag@
        &&& forall|i: int, j: int|
            0 <= i < j < self.active_cues@.len() ==> self.active_cues@[i].tag@
                != self.active_cues@[j].tag@
        &&& forall|i: int|
            0 <= i < self.active_cues@.len() ==> (#[trigger] self.active_cues@[i]).actors@.len()
                > 0
    }

    /// Whether some group of active cue actors carries the tag name.
    pub open spec fn spec_has_group(&self, name: Seq<char>) -> bool {
        exists|i: int| 0 <= i < self.active_cues@.len() && self.active_cues@[i].tag@ == name
    }

    /// The index of the group of active cue actors carrying the tag name.
    pub open spec fn spec_group_index(&self, name: Seq<char>) -> int {
        choose|i: int| 0 <= i < self.active_cues@.len() && self.active_cues@[i].tag@ == name
    }

    /// Creates a new empty cue manager with batching off.
    pub fn new() -> (m: Self)
        ensures
            m.loaded_cues@.len() == 0,
            m.active_cues@.len() == 0,
            m.pending_cues@.len() == 0,
            !m.batching_active,
            m.wf(),
    {
        GameplayCueManager {
            loaded_cues: Vec::new(),
            active_cues: Vec::new(),
            pending_cues: Vec::new(),
            batching_active: false,
        }
    }

    /// Finds the index of the cue registered under the tag.
    fn find_cue(&self, tag: &GameplayTag) -> (r: Option<usize>)
        ensures
            match r {
                Some(i) => 0 <= i < self.loaded_cues@.len() && self.loaded_cues@[i as int].tag@
                    == tag@,
                None => !self.spec_has_cue(tag@),
            },
    {
        let mut i: usize = 0;
        while i < self.loaded_cues.len()
            invariant
                0 <= i <= self.loaded_cues@.len(),
                forall|t: int| 0 <= t < i ==> self.loaded_cues@[t].tag@ != tag@,
            decreases self.loaded_cues@.len() - i,
        {
            if self.loaded_cues[i].tag.matches_tag_exact(tag) {
                return Some(i);
            }
            i = i + 1;
        }
        None
    }

    /// Whether a cue is registered under the tag.
    pub fn has_cue(&self, tag: &GameplayTag) -> (r: bool)
        ensures
            r == self.spec_has_cue(tag@),
    {
        self.find_cue(tag).is_some()
    }

    /// Whether the cue registered under the tag is static.
    pub fn is_static_cue(&self, tag: &GameplayTag) -> (r: Option<bool>)
        requires
            self.wf(),
        ensures
            r == if self.spec_has_cue(tag@) {
                Some(self.loaded_cues@[self.spec_cue_index(tag@)].is_static)
            } else {
                Option::<bool>::None
            },
    {
        match self.find_cue(tag) {
            Some(i) => {
                proof {
                    let c = self.spec_cue_index(tag@);
                    if c != i {
                        assert(false);
                    }
                }
                Some(self.loaded_cues[i].is_static)
            },
            None => None,
        }
    }

    /// Registers a cue, replacing any cue previously registered under the
    /// same tag.
    fn register_cue(&mut self, tag: GameplayTag, is_static: bool)
        requires
            old(self).wf(),
        ensures
            final (self).wf(),
            final (self).spec_has_cue(tag@),
            final (self).loaded_cues@[final (self).spec_cue_index(tag@)].is_static == is_static,
            forall|n: Seq<char>|
                n != tag@ ==> final (self).spec_has_cue(n) == old(self).spec_has_cue(n),
            final (self).active_cues == old(self).active_cues,
            final (self).pending_cues == old(self).pending_cues,
            final (self).batching_active == old(self).batching_active,
    {
        let ghost name = tag@;
        match self.find_cue(&tag) {
            Some(i) => {
                self.loaded_cues[i] = CueNotifyInfo { tag, is_static };
                proof {
                    assert(forall|t: int|
                        0 <= t < self.loaded_cues@.len() && t != i ==> self.loaded_cues@[t] == old(
                            self,
                        ).loaded_cues@[t]);
                    assert(self.loaded_cues@[i as int].tag@ == name);
                    assert(self.spec_has_cue(name));
                    let c = self.spec_cue_index(name);
                    if c != i {
                        assert(old(self).loaded_cues@[c].tag@ == name);
                        assert(false);
                    }
                    assert forall|n: Seq<char>| n != name implies self.spec_has_cue(n) == old(
                        self,
                    ).spec_has_cue(n) by {
                        if self.spec_has_cue(n) {
                            let t = self.spec_cue_index(n);
                            assert(t != i);
                            assert(old(self).loaded_cues@[t].tag@ == n);
                        }
                        if old(self).spec_has_cue(n) {
                            let t = old(self).spec_cue_index(n);
                            assert(t != i);
                            assert(self.loaded_cues@[t].tag@ == n);
                        }
                    }
                }
            },
            None => {
                self.loaded_cues.push(CueNotifyInfo { tag, is_static });
                proof {
                    let last = self.loaded_cues@.len() - 1;
                    assert(self.loaded_cues@[last].tag@ == name);
                    assert(self.spec_has_cue(name));
                    let c = self.spec_cue_index(name);
                    if c != last {
                        assert(old(self).loaded_cues@[c].tag@ == name);
                        assert(false);
                    }
                    assert forall|n: Seq<char>| n != name implies self.spec_has_cue(n) == old(
                        self,
                    ).spec_has_cue(n) by {
                        if self.spec_has_cue(n) {
                            let t = self.spec_cue_index(n);
                            assert(t != last);
                            assert(old(self).loaded_cues@[t].tag@ == n);
                        }
                        if old(self).spec_has_cue(n) {
                            let t = old(self).spec_cue_index(n);
                            assert(self.loaded_cues@[t].tag@ == n);
                        }
                    }
                }
            },
        }
    }

    /// Registers a static (function-based) cue notify.
    pub fn register_static_cue(&mut self, tag: GameplayTag)
        requires
            old(self).wf(),
        ensures
            final (self).wf(),
            final (self).spec_has_cue(tag@),
            final (self).loaded_cues@[final (self).spec_cue_index(tag@)].is_static,
            forall|n: Seq<char>|
                n != tag@ ==> final (self).spec_has_cue(n) == old(self).spec_has_cue(n),
            final (self).active_cues == old(self).active_cues,
            final (self).pending_cues == old(self).pending_cues,
            final (self).batching_active == old(self).batching_active,
    {
        self.register_cue(tag, true)
    }

    /// Registers an actor-based cue notify.
    pub fn register_actor_cue(&mut self, tag: GameplayTag)
        requires
            old(self).wf(),
        ensures
            final (self).wf(),
            final (self).spec_has_cue(tag@),
            !final (self).loaded_cues@[final (self).spec_cue_index(tag@)].is_static,
            forall|n: Seq<char>|
                n != tag@ ==> final (self).spec_has_cue(n) == old(self).spec_has_cue(n),
            final (self).active_cues == old(self).active_cues,
            final (self).pending_cues == old(self).pending_cues,
            final (self).batching_active == old(self).batching_active,
    {
        self.register_cue(tag, false)
    }

    /// Executes a gameplay cue: while batching is active the execution is
    /// queued; otherwise it is handed to the embedder immediately and
    /// leaves no pending record.
    pub fn execute_cue(&mut self, cue_tag: GameplayTag, event_type: GameplayCueEvent, parameters: GameplayCueParameters)
        ensures
            old(self).batching_active ==> final (self).pending_cues@.len() == old(
                self,
            ).pending_cues@.len() + 1 && final (self).pending_cues@.last().cue_tag == cue_tag
                && final (self).pending_cues@.last().event_type == event_type && final (
            self).pending_cues@.last().parameters == parameters && forall|k: int|
                0 <= k < old(self).pending_cues@.len() ==> final (self).pending_cues@[k] == old(
                    self,
                ).pending_cues@[k],
            !old(self).batching_active ==> final (self).pending_cues == old(self).pending_cues,
            final (self).loaded_cues == old(self).loaded_cues,
            final (self).active_cues == old(self).active_cues,
            final (self).batching_active == old(self).batching_active,
    {
        if self.batching_active {
            self.pending_cues.push(PendingCueExecution { cue_tag, event_type, parameters });
        }
    }

    /// Starts batching cue executions.
    pub fn start_batching(&mut self)
        ensures
            final (self).batching_active,
            final (self).loaded_cues == old(self).loaded_cues,
            final (self).active_cues == old(self).active_cues,
            final (self).pending_cues == old(self).pending_cues,
    {
        self.batching_active = true;
    }

    /// Ends batching and drains the queued executions, handing them back
    /// for the embedder to present.
    pub fn end_batching(&mut self) -> (drained: Vec<PendingCueExecution>)
        ensures
            !final (self).batching_active,
            final (self).pending_cues@.len() == 0,
            drained@ == old(self).pending_cues@,
            final (self).loaded_cues == old(self).loaded_cues,
            final (self).active_cues == old(self).active_cues,
    {
        self.batching_active = false;
        let mut drained: Vec<PendingCueExecution> = Vec::new();
        core::mem::swap(&mut self.pending_cues, &mut drained);
        drained
    }

    /// Adds an active cue actor under the tag: the tag's group gains the
    /// actor at the end, a tag without a group gets a fresh one-actor
    /// group, and every other group is untouched.
    #[verifier::loop_isolation(false)]
    pub fn add_active_cue(&mut self, tag: GameplayTag, entity: u64)
        requires
            old(self).wf(),
        ensures
            final (self).wf(),
            final (self).loaded_cues == old(self).loaded_cues,
            final (self).pending_cues == old(self).pending_cues,
            final (self).batching_active == old(self).batching_active,
            old(self).spec_has_group(tag@) ==> {
                let g = old(self).spec_group_index(tag@);
                &&& final (self).active_cues@.len() == old(self).active_cues@.len()
                &&& forall|j: int|
                    0 <= j < old(self).active_cues@.len() && j != g ==> final (
                    self).active_cues@[j] == old(self).active_cues@[j]
                &&& final (self).active_cues@[g].tag == old(self).active_cues@[g].tag
                &&& final (self).active_cues@[g].actors@ == old(self).active_cues@[g].actors@.push(
                    entity,
                )
            },
            !old(self).spec_has_group(tag@) ==> {
                &&& final (self).active_cues@.len() == old(self).active_cues@.len() + 1
                &&& forall|j: int|
                    0 <= j < old(self).active_cues@.len() ==> final (self).active_cues@[j] == old(
                        self,
                    ).active_cues@[j]
                &&& final (self).active_cues@.last().tag == tag
                &&& final (self).active_cues@.last().actors@ == seq![entity]
            },
    {
        let mut i: usize = 0;
        while i < self.active_cues.len()
            invariant
                0 <= i <= self.active_cues@.len(),
                *self == *old(self),
                forall|t: int| 0 <= t < i ==> self.active_cues@[t].tag@ != tag@,
            decreases self.active_cues@.len() - i,
        {
            if self.active_cues[i].tag.matches_tag_exact(&tag) {
                proof {
                    assert(old(self).spec_has_group(tag@));
                    let g = old(self).spec_group_index(tag@);
                    assert(old(self).active_cues@[g].tag@ == tag@);
                    if g != i {
                        assert(false);
                    }
                }
                self.active_cues[i].actors.push(entity);
                return ;
            }
            i = i + 1;
        }
        proof {
            assert(!old(self).spec_has_group(tag@));
        }
        let mut actors: Vec<u64> = Vec::new();
        actors.push(entity);
        self.active_cues.push(ActiveCueActors { tag, actors });
        proof {
            assert(final (self).active_cues@.last().actors@ =~= seq![entity]);
        }
    }

    /// The actor list with every occurrence of one actor removed, order
    /// kept.
    pub open spec fn spec_actors_without(s: Seq<u64>, entity: u64) -> Seq<u64>
        decreases s.len(),
    {
        if s.len() == 0 {
            Seq::empty()
        } else {
            let rest = Self::spec_actors_without(s.drop_last(), entity);
            if s.last() == entity {
                rest
            } else {
                rest.push(s.last())
            }
        }
    }

    /// Removes an active cue actor from under the tag: the actor leaves the
    /// tag's group, a group emptied by the removal is dropped entirely, and
    /// every other group is untouched.
    #[verifier::loop_isolation(false)]
    pub fn remove_active_cue(&mut self, tag: &GameplayTag, entity: u64)
        requires
            old(self).wf(),
        ensures
            final (self).wf(),
            final (self).loaded_cues == old(self).loaded_cues,
            final (self).pending_cues == old(self).pending_cues,
            final (self).batching_active == old(self).batching_active,
            !old(self).spec_has_group(tag@) ==> final (self).active_cues == old(self).active_cues,
            old(self).spec_has_group(tag@) ==> {
                let g = old(self).spec_group_index(tag@);
                let kept = Self::spec_actors_without(old(self).active_cues@[g].actors@, entity);
                if kept.len() == 0 {
                    final (self).active_cues@ == old(self).active_cues@.remove(g)
                } else {
                    &&& final (self).active_cues@.len() == old(self).active_cues@.len()
                    &&& forall|j: int|
                        0 <= j < old(self).active_cues@.len() && j != g ==> final (
                        self).active_cues@[j] == old(self).active_cues@[j]
                    &&& final (self).active_cues@[g].tag == old(self).active_cues@[g].tag
                    &&& final (self).active_cues@[g].actors@ == kept
                }
            },
    {
        let mut i: usize = 0;
        while i < self.active_cues.len()
            invariant
                0 <= i <= self.active_cues@.len(),
                *self == *old(self),
                forall|t: int| 0 <= t < i ==> self.active_cues@[t].tag@ != tag@,
            decreases self.active_cues@.len() - i,
        {
            if self.active_cues[i].tag.matches_tag_exact(tag) {
                proof {
                    assert(old(self).spec_has_group(tag@));
                    let g = old(self).spec_group_index(tag@);
                    assert(old(self).active_cues@[g].tag@ == tag@);
                    if g != i {
                        assert(false);
                    }
                }
                let ghost orig_actors = self.active_cues@[i as int].actors@;
                let mut kept: Vec<u64> = Vec::new();
                let mut a: usize = 0;
                while a < self.active_cues[i].actors.len()
                    invariant
                        0 <= i < self.active_cues@.len(),
                        *self == *old(self),
                        orig_actors == self.active_cues@[i as int].actors@,
                        0 <= a <= orig_actors.len(),
                        kept@ == Self::spec_actors_without(orig_actors.take(a as int), entity),
                    decreases orig_actors.len() - a,
                {
                    proof {
                        assert(orig_actors.take(a + 1).drop_last() =~= orig_actors.take(a as int));
                        assert(orig_actors.take(a + 1).last() == orig_actors[a as int]);
                    }
                    if self.active_cues[i].actors[a] != entity {
                        let v = self.active_cues[i].actors[a];
                        kept.push(v);
                    }
                    a = a + 1;
                }
                proof {
                    assert(orig_actors.take(orig_actors.len() as int) =~= orig_actors);
                }
                if kept.len() == 0 {
                    self.active_cues.remove(i);
                    proof {
                        assert(final (self).active_cues@ == old(self).active_cues@.remove(i as int));
                        assert forall|p: int, q: int|
                            0 <= p < q < self.active_cues@.len() implies self.active_cues@[p].tag@
                            != self.active_cues@[q].tag@ by {
                            assert(self.active_cues@[p] == if p < i as int {
                                old(self).active_cues@[p]
                            } else {
                                old(self).active_cues@[p + 1]
                            });
                            assert(self.active_cues@[q] == if q < i as int {
                                old(self).active_cues@[q]
                            } else {
                                old(self).active_cues@[q + 1]
                            });
                        }
                    }
                } else {
                    self.active_cues[i].actors = kept;
                }
                return ;
            }
            i = i + 1;
        }
        proof {
            assert(!old(self).spec_has_group(tag@));
        }
    }
}

} // verus!
