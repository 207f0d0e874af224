//! Effects: terminal side-effect subscribers with no downstream
//! dependents.
//!
//! An effect is created `Dirty` and scheduled at once, so it runs once
//! immediately and establishes its initial dependency set. Marking is
//! eager — a marked effect is handed to the external notifier — but the
//! wake-up is verified before anything runs: when the notifier gets around
//! to the effect, [`Runtime::effect_resolve`] walks its sources exactly as
//! a memo would, and only if something really changed does it ask for the
//! closure to be re-run (between [`Runtime::effect_begin_run`] and
//! [`Runtime::effect_finish_run`], which rebuild the dependency set from
//! scratch). A disposed effect is never asked to run again: notifications
//! reaching it are dropped silently.

use vstd::prelude::*;

use crate::graph::DirtyState;
use crate::graph::SourceId;
use crate::graph::SubscriberId;
use crate::memo::sources_unchanged;
use crate::runtime::Runtime;

verus! {

/// What resolving a scheduled effect asks of the driver.
#[derive(Copy, Clone, Debug, PartialEq, Eq, Structural)]
pub enum EffectAction {
    /// Nothing really changed (or the effect is disposed); do not run the
    /// closure.
    Skip,
    /// Something changed: re-run the effect's closure between
    /// `effect_begin_run` and `effect_finish_run`.
    Run,
    /// The named memo — a source of this effect — is definitely stale: run
    /// its derivation first, then resolve the effect again.
    RunMemo(usize),
    /// The named memo — a source of this effect — might be stale: resolve
    /// it first, then resolve the effect again.
    CheckMemo(usize),
}

impl Runtime {
    /// Decides whether a (typically just-notified) effect must re-run its
    /// closure. A disposed or clean effect is skipped. A dirty effect must
    /// run. An effect in `Check` walks its remembered sources in insertion
    /// order: the first source that really changed makes it run; if none
    /// did, the effect becomes clean again and its closure is not re-run —
    /// this is what keeps an equal-valued memo recomputation from rippling
    /// into effect re-runs.
    pub fn effect_resolve(&mut self, e: usize) -> (r: EffectAction)
        requires
            old(self).wf(),
            e < old(self).n_effects(),
        ensures
            final(self).wf(),
            *final(self) == (Runtime {
                effect_states: final(self).effect_states,
                effect_clean_at: final(self).effect_clean_at,
                ..*old(self)
            }),
            forall|k: int| 0 <= k < old(self).n_effects() && k != e ==>
                #[trigger] final(self).effect_states@[k] == old(self).effect_states@[k]
                && final(self).effect_clean_at@[k] == old(self).effect_clean_at@[k],
            old(self).effect_disposed@[e as int] ==> (r == EffectAction::Skip && *final(self) == *old(self)),
            old(self).effect_states@[e as int] == DirtyState::Clean
                ==> (r == EffectAction::Skip && *final(self) == *old(self)),
            r == EffectAction::Run ==> final(self).effect_states@[e as int] == DirtyState::Dirty,
            r matches EffectAction::RunMemo(x) ==> x < old(self).n_memos()
                && old(self).effect_sources@[e as int]@.contains(SourceId::Memo(x))
                && (final(self).memo_values@[x as int] is None
                    || final(self).memo_states@[x as int] == DirtyState::Dirty),
            r matches EffectAction::CheckMemo(x) ==> x < old(self).n_memos()
                && final(self).memo_states@[x as int] == DirtyState::Check
                && old(self).effect_sources@[e as int]@.contains(SourceId::Memo(x))
                && *final(self) == *old(self),
            r == EffectAction::Skip ==> final(self).effect_states@[e as int] == DirtyState::Clean
                || old(self).effect_disposed@[e as int],
            !old(self).effect_disposed@[e as int]
                && old(self).effect_states@[e as int] == DirtyState::Check
                && sources_unchanged(*old(self), old(self).effect_sources@[e as int]@,
                    old(self).effect_clean_at@[e as int])
                ==> r == EffectAction::Skip,
            !old(self).effect_disposed@[e as int]
                && old(self).effect_states@[e as int] == DirtyState::Dirty
                ==> r == EffectAction::Run,
            !old(self).effect_disposed@[e as int]
                && old(self).effect_states@[e as int] == DirtyState::Check
                && r == EffectAction::Skip
                ==> sources_unchanged(*old(self), old(self).effect_sources@[e as int]@,
                    old(self).effect_clean_at@[e as int]),
    {
        if self.effect_disposed[e] {
            return EffectAction::Skip;
        }
        let st = self.effect_states[e];
        if st == DirtyState::Dirty {
            return EffectAction::Run;
        }
        if st == DirtyState::Clean {
            return EffectAction::Skip;
        }
        let n = self.effect_sources[e].len();
        let mut i: usize = 0;
        while i < n
            invariant
                self.wf(),
                *self == *old(self),
                e < self.n_effects(),
                !self.effect_disposed@[e as int],
                self.effect_states@[e as int] == DirtyState::Check,
                i <= n,
                n == self.effect_sources@[e as int]@.len(),
                forall|j: int| 0 <= j < i ==> match #[trigger] self.effect_sources@[e as int]@[j] {
                    SourceId::Signal(s) => false,
                    SourceId::Memo(m2) => {
                        &&& self.memo_states@[m2 as int] == DirtyState::Clean
                        &&& self.memo_values@[m2 as int] is Some
                        &&& self.memo_changed_at@[m2 as int]
                            <= self.effect_clean_at@[e as int]
                    },
                },
            decreases n - i,
        {
            let src = self.effect_sources[e][i];
            proof {
                assert(self.effect_sources@[e as int]@.contains(src));
                assert(self.src_in_bounds(src));
            }
            match src {
                SourceId::Signal(_) => {
                    self.effect_states[e] = DirtyState::Dirty;
                    return EffectAction::Run;
                }
                SourceId::Memo(m2) => {
                    if self.memo_values[m2].is_none() {
                        return EffectAction::RunMemo(m2);
                    }
                    let st2 = self.memo_states[m2];
                    if st2 == DirtyState::Dirty {
                        return EffectAction::RunMemo(m2);
                    }
                    if st2 == DirtyState::Check {
                        return EffectAction::CheckMemo(m2);
                    }
                    if self.memo_changed_at[m2] > self.effect_clean_at[e] {
                        self.effect_states[e] = DirtyState::Dirty;
                        return EffectAction::Run;
                    }
                }
            }
            i = i + 1;
        }
        self.effect_states[e] = DirtyState::Clean;
        let clock = self.clock;
        self.effect_clean_at[e] = clock;
        EffectAction::Skip
    }

    /// Prepares effect `e` for a run of its closure: unsubscribes it from
    /// every source — so a conditional dependency that the coming run does
    /// not read again stays dropped — clears its remembered sources, and
    /// makes it the tracked subscriber.
    pub fn effect_begin_run(&mut self, e: usize)
        requires
            old(self).wf(),
            e < old(self).n_effects(),
            !old(self).effect_disposed@[e as int],
        ensures
            final(self).wf(),
            *final(self) == (Runtime {
                sig_subs: final(self).sig_subs,
                memo_subs: final(self).memo_subs,
                effect_sources: final(self).effect_sources,
                tracking: final(self).tracking,
                track_stack: final(self).track_stack,
                ..*old(self)
            }),
            forall|s: int| 0 <= s < old(self).n_signals() ==>
                !(#[trigger] final(self).sig_subs@[s]@).contains(SubscriberId::Effect(e)),
            forall|m: int| 0 <= m < old(self).n_memos() ==>
                !(#[trigger] final(self).memo_subs@[m]@).contains(SubscriberId::Effect(e)),
            forall|s: int, y: SubscriberId| 0 <= s < old(self).n_signals() && y != SubscriberId::Effect(e) ==>
                ((#[trigger] final(self).sig_subs@[s]@.contains(y)) <==> old(self).sig_subs@[s]@.contains(y)),
            forall|m: int, y: SubscriberId| 0 <= m < old(self).n_memos() && y != SubscriberId::Effect(e) ==>
                ((#[trigger] final(self).memo_subs@[m]@.contains(y)) <==> old(self).memo_subs@[m]@.contains(y)),
            final(self).effect_sources@[e as int]@.len() == 0,
            forall|e2: int| 0 <= e2 < old(self).n_effects() && e2 != e ==>
                #[trigger] final(self).effect_sources@[e2] == old(self).effect_sources@[e2],
            final(self).tracking == Some(SubscriberId::Effect(e)),
            final(self).track_stack@ == old(self).track_stack@.push(old(self).tracking),
    {
        self.unsubscribe_everywhere(SubscriberId::Effect(e));
        self.effect_sources[e] = Vec::new();
        self.push_tracking(SubscriberId::Effect(e));
    }

    /// Commits the end of an effect run: the effect is clean as of now,
    /// and the tracking context is restored.
    pub fn effect_finish_run(&mut self, e: usize)
        requires
            old(self).wf(),
            e < old(self).n_effects(),
            old(self).tracking == Some(SubscriberId::Effect(e)),
            old(self).track_stack@.len() > 0,
        ensures
            final(self).wf(),
            *final(self) == (Runtime {
                effect_states: final(self).effect_states,
                effect_clean_at: final(self).effect_clean_at,
                tracking: final(self).tracking,
                track_stack: final(self).track_stack,
                ..*old(self)
            }),
            final(self).effect_states@ == old(self).effect_states@.update(e as int, DirtyState::Clean),
            final(self).effect_clean_at@ == old(self).effect_clean_at@.update(e as int, old(self).clock),
            final(self).tracking == old(self).track_stack@.last(),
            final(self).track_stack@ == old(self).track_stack@.drop_last(),
    {
        self.effect_states[e] = DirtyState::Clean;
        let clock = self.clock;
        self.effect_clean_at[e] = clock;
        self.pop_tracking();
    }

    /// Disposes effect `e` on behalf of its owning scope: unsubscribes it
    /// from every source and marks it disposed. A disposed effect is never
    /// scheduled again and never re-runs: notifications that would reach
    /// it are dropped at the graph layer, and writing to a signal it used
    /// to depend on no longer involves it at all.
    pub fn dispose_effect(&mut self, e: usize)
        requires
            old(self).wf(),
            e < old(self).n_effects(),
        ensures
            final(self).wf(),
            *final(self) == (Runtime {
                sig_subs: final(self).sig_subs,
                memo_subs: final(self).memo_subs,
                effect_sources: final(self).effect_sources,
                effect_disposed: final(self).effect_disposed,
                ..*old(self)
            }),
            forall|s: int| 0 <= s < old(self).n_signals() ==>
                !(#[trigger] final(self).sig_subs@[s]@).contains(SubscriberId::Effect(e)),
            forall|m: int| 0 <= m < old(self).n_memos() ==>
                !(#[trigger] final(self).memo_subs@[m]@).contains(SubscriberId::Effect(e)),
            forall|s: int, y: SubscriberId| 0 <= s < old(self).n_signals() && y != SubscriberId::Effect(e) ==>
                ((#[trigger] final(self).sig_subs@[s]@.contains(y)) <==> old(self).sig_subs@[s]@.contains(y)),
            forall|m: int, y: SubscriberId| 0 <= m < old(self).n_memos() && y != SubscriberId::Effect(e) ==>
                ((#[trigger] final(self).memo_subs@[m]@.contains(y)) <==> old(self).memo_subs@[m]@.contains(y)),
            final(self).effect_sources@[e as int]@.len() == 0,
            forall|e2: int| 0 <= e2 < old(self).n_effects() && e2 != e ==>
                #[trigger] final(self).effect_sources@[e2] == old(self).effect_sources@[e2],
            final(self).effect_disposed@ == old(self).effect_disposed@.update(e as int, true),
    {
        self.unsubscribe_everywhere(SubscriberId::Effect(e));
        self.effect_sources[e] = Vec::new();
        self.effect_disposed[e] = true;
    }

    /// Whether effect `e` has been disposed.
    pub fn effect_is_disposed(&self, e: usize) -> (r: bool)
        requires
            self.wf(),
            e < self.n_effects(),
        ensures
            r == self.effect_disposed@[e as int],
    {
        self.effect_disposed[e]
    }
}

} // verus!
