//! Memos (computations): cached derived values, lazily recomputed.
//!
//! A memo's staleness is resolved by *pulling*: a read first resolves the
//! memo ([`Runtime::memo_resolve`]), which walks its remembered sources in
//! insertion order and decides whether anything really changed. The
//! runtime never runs derivation closures itself: when a memo must be
//! recomputed, resolution answers [`Resolution::RunNeeded`] and the driver
//! runs the derivation between [`Runtime::memo_begin_run`] and
//! [`Runtime::memo_finish_run`]; when a source memo must be looked at
//! first, resolution answers [`Resolution::CheckFirst`] and the driver
//! resolves that memo and retries. A graph in which a memo transitively
//! depends on itself can make this exchange go on forever; cycles are
//! tolerated structurally but not guaranteed to terminate.
//!
//! "Really changed" is a timestamp comparison: a memo source counts as
//! changed when its value last changed after this subscriber last became
//! clean; a signal source always counts as changed, because a signal's
//! subscriber set is drained on notification, so a signal edge can only
//! have fired. A recomputation that produces a value equal to the previous
//! one does not advance the clock and does not mark the memo changed — so
//! dependents of such a memo resolve to "unchanged" and skip their own
//! recomputation.

use vstd::prelude::*;

use crate::graph::DirtyState;
use crate::graph::SourceId;
use crate::graph::SubscriberId;
use crate::runtime::Runtime;
use crate::runtime::read_registered;

verus! {

/// What resolving a memo asks of the driver.
#[derive(Copy, Clone, Debug, PartialEq, Eq, Structural)]
pub enum Resolution {
    /// The memo is clean and its cached value is current; read it.
    UpToDate,
    /// The named memo is definitely stale: run its derivation between
    /// `memo_begin_run` and `memo_finish_run`, then resolve again.
    RunNeeded(usize),
    /// The named memo — a source of the one being resolved — might be
    /// stale: resolve it first, then resolve this memo again.
    CheckFirst(usize),
}

/// Every source in `sources` is a memo that has run, is clean, and has
/// not changed since logical time `since`. A signal source never counts:
/// a signal edge in a `Check`ed subscriber means the signal fired.
pub open spec fn sources_unchanged(rt: Runtime, sources: Seq<SourceId>, since: u64) -> bool {
    forall|i: int| 0 <= i < sources.len() ==> match #[trigger] sources[i] {
        SourceId::Signal(s) => false,
        SourceId::Memo(m2) => {
            &&& rt.memo_states@[m2 as int] == DirtyState::Clean
            &&& rt.memo_values@[m2 as int] is Some
            &&& rt.memo_changed_at@[m2 as int] <= since
        },
    }
}

impl Runtime {
    /// Re-verifies whether memo `m` needs recomputation, without running
    /// anything: a clean memo is up to date at once (repeated reads with
    /// no intervening invalidation never recompute); a dirty or never-run
    /// memo needs its derivation run; a memo in `Check` walks its
    /// remembered sources in insertion order, short-circuiting on the
    /// first one that really changed — and if none did, the memo becomes
    /// clean again with no recomputation at all.
    pub fn memo_resolve(&mut self, m: usize) -> (r: Resolution)
        requires
            old(self).wf(),
            m < old(self).n_memos(),
        ensures
            final(self).wf(),
            *final(self) == (Runtime {
                memo_states: final(self).memo_states,
                memo_clean_at: final(self).memo_clean_at,
                ..*old(self)
            }),
            forall|k: int| 0 <= k < old(self).n_memos() && k != m ==>
                #[trigger] final(self).memo_states@[k] == old(self).memo_states@[k]
                && final(self).memo_clean_at@[k] == old(self).memo_clean_at@[k],
            final(self).memo_states@[m as int] == old(self).memo_states@[m as int]
                || (old(self).memo_states@[m as int] == DirtyState::Check
                    && (final(self).memo_states@[m as int] == DirtyState::Clean
                        || final(self).memo_states@[m as int] == DirtyState::Dirty)),
            old(self).memo_states@[m as int] == DirtyState::Clean
                && old(self).memo_values@[m as int] is Some
                ==> (r == Resolution::UpToDate && *final(self) == *old(self)),
            r == Resolution::UpToDate ==> {
                &&& final(self).memo_states@[m as int] == DirtyState::Clean
                &&& final(self).memo_values@[m as int] is Some
            },
            r matches Resolution::RunNeeded(x) ==> x < old(self).n_memos()
                && (x == m || old(self).memo_sources@[m as int]@.contains(SourceId::Memo(x)))
                && (final(self).memo_values@[x as int] is None
                    || final(self).memo_states@[x as int] == DirtyState::Dirty),
            r matches Resolution::CheckFirst(x) ==> x < old(self).n_memos()
                && final(self).memo_states@[x as int] == DirtyState::Check
                && old(self).memo_sources@[m as int]@.contains(SourceId::Memo(x))
                && *final(self) == *old(self),
            old(self).memo_states@[m as int] == DirtyState::Check
                && old(self).memo_values@[m as int] is Some
                && sources_unchanged(*old(self), old(self).memo_sources@[m as int]@,
                    old(self).memo_clean_at@[m as int])
                ==> r == Resolution::UpToDate,
            old(self).memo_values@[m as int] is None ==> r == Resolution::RunNeeded(m),
            old(self).memo_values@[m as int] is Some
                && old(self).memo_states@[m as int] == DirtyState::Dirty
                ==> r == Resolution::RunNeeded(m),
            old(self).memo_states@[m as int] == DirtyState::Check && r == Resolution::UpToDate
                ==> sources_unchanged(*old(self), old(self).memo_sources@[m as int]@,
                    old(self).memo_clean_at@[m as int]),
    {
        if self.memo_values[m].is_none() {
            return Resolution::RunNeeded(m);
        }
        let st = self.memo_states[m];
        if st == DirtyState::Dirty {
            return Resolution::RunNeeded(m);
        }
        if st == DirtyState::Clean {
            return Resolution::UpToDate;
        }
        let n = self.memo_sources[m].len();
        let mut i: usize = 0;
        while i < n
            invariant
                self.wf(),
                *self == *old(self),
                m < self.n_memos(),
                self.memo_states@[m as int] == DirtyState::Check,
                self.memo_values@[m as int] is Some,
                i <= n,
                n == self.memo_sources@[m as int]@.len(),
                forall|j: int| 0 <= j < i ==> match #[trigger] self.memo_sources@[m as int]@[j] {
                    SourceId::Signal(s) => false,
                    SourceId::Memo(m2) => {
                        &&& self.memo_states@[m2 as int] == DirtyState::Clean
                        &&& self.memo_values@[m2 as int] is Some
                        &&& self.memo_changed_at@[m2 as int]
                            <= self.memo_clean_at@[m as int]
                    },
                },
            decreases n - i,
        {
            let src = self.memo_sources[m][i];
            proof {
                assert(self.memo_sources@[m as int]@.contains(src));
                assert(self.src_in_bounds(src));
            }
            match src {
                SourceId::Signal(_) => {
                    self.memo_states[m] = DirtyState::Dirty;
                    return Resolution::RunNeeded(m);
                }
                SourceId::Memo(m2) => {
                    if self.memo_values[m2].is_none() {
                        return Resolution::RunNeeded(m2);
                    }
                    let st2 = self.memo_states[m2];
                    if st2 == DirtyState::Dirty {
                        return Resolution::RunNeeded(m2);
                    }
                    if st2 == DirtyState::Check {
                        return Resolution::CheckFirst(m2);
                    }
                    if self.memo_changed_at[m2] > self.memo_clean_at[m] {
                        self.memo_states[m] = DirtyState::Dirty;
                        return Resolution::RunNeeded(m);
                    }
                }
            }
            i = i + 1;
        }
        self.memo_states[m] = DirtyState::Clean;
        let clock = self.clock;
        self.memo_clean_at[m] = clock;
        Resolution::UpToDate
    }

    /// Prepares memo `m` for a recomputation: unsubscribes it from every
    /// source (stale conditional dependencies are dropped; the set is
    /// rebuilt from scratch by the reads the derivation makes), clears its
    /// remembered sources, and makes it the tracked subscriber.
    pub fn memo_begin_run(&mut self, m: usize)
        requires
            old(self).wf(),
            m < old(self).n_memos(),
        ensures
            final(self).wf(),
            *final(self) == (Runtime {
                sig_subs: final(self).sig_subs,
                memo_subs: final(self).memo_subs,
                memo_sources: final(self).memo_sources,
                tracking: final(self).tracking,
                track_stack: final(self).track_stack,
                ..*old(self)
            }),
            forall|s: int| 0 <= s < old(self).n_signals() ==>
                !(#[trigger] final(self).sig_subs@[s]@).contains(SubscriberId::Memo(m)),
            forall|m2: int| 0 <= m2 < old(self).n_memos() ==>
                !(#[trigger] final(self).memo_subs@[m2]@).contains(SubscriberId::Memo(m)),
            forall|s: int, y: SubscriberId| 0 <= s < old(self).n_signals() && y != SubscriberId::Memo(m) ==>
                ((#[trigger] final(self).sig_subs@[s]@.contains(y)) <==> old(self).sig_subs@[s]@.contains(y)),
            forall|m2: int, y: SubscriberId| 0 <= m2 < old(self).n_memos() && y != SubscriberId::Memo(m) ==>
                ((#[trigger] final(self).memo_subs@[m2]@.contains(y)) <==> old(self).memo_subs@[m2]@.contains(y)),
            final(self).memo_sources@[m as int]@.len() == 0,
            forall|m2: int| 0 <= m2 < old(self).n_memos() && m2 != m ==>
                #[trigger] final(self).memo_sources@[m2] == old(self).memo_sources@[m2],
            final(self).tracking == Some(SubscriberId::Memo(m)),
            final(self).track_stack@ == old(self).track_stack@.push(old(self).tracking),
    {
        self.unsubscribe_everywhere(SubscriberId::Memo(m));
        self.memo_sources[m] = Vec::new();
        self.push_tracking(SubscriberId::Memo(m));
    }

    /// Commits the result of a recomputation of memo `m`: stores `value`,
    /// marks the memo clean, and restores the tracking context. If the new
    /// value equals the previous one, time does not advance and the memo
    /// is not marked changed — dependents that later re-verify will find
    /// it unchanged and skip their own recomputation. If the value did
    /// change, the clock advances and the memo is stamped with it.
    pub fn memo_finish_run(&mut self, m: usize, value: u64)
        requires
            old(self).wf(),
            m < old(self).n_memos(),
            old(self).tracking == Some(SubscriberId::Memo(m)),
            old(self).track_stack@.len() > 0,
            old(self).clock < u64::MAX,
        ensures
            final(self).wf(),
            *final(self) == (Runtime {
                memo_values: final(self).memo_values,
                memo_states: final(self).memo_states,
                memo_clean_at: final(self).memo_clean_at,
                memo_changed_at: final(self).memo_changed_at,
                tracking: final(self).tracking,
                track_stack: final(self).track_stack,
                clock: final(self).clock,
                ..*old(self)
            }),
            final(self).memo_values@ == old(self).memo_values@.update(m as int, Some(value)),
            final(self).memo_states@ == old(self).memo_states@.update(m as int, DirtyState::Clean),
            old(self).memo_values@[m as int] == Some(value) ==> {
                &&& final(self).clock == old(self).clock
                &&& final(self).memo_changed_at == old(self).memo_changed_at
            },
            old(self).memo_values@[m as int] != Some(value) ==> {
                &&& final(self).clock == old(self).clock + 1
                &&& final(self).memo_changed_at@ == old(self).memo_changed_at@.update(
                        m as int, final(self).clock)
            },
            final(self).memo_clean_at@ == old(self).memo_clean_at@.update(m as int, final(self).clock),
            final(self).tracking == old(self).track_stack@.last(),
            final(self).track_stack@ == old(self).track_stack@.drop_last(),
    {
        let changed = match self.memo_values[m] {
            None => true,
            Some(prev) => prev != value,
        };
        self.memo_values[m] = Some(value);
        self.memo_states[m] = DirtyState::Clean;
        if changed {
            self.clock = self.clock + 1;
            let clock = self.clock;
            self.memo_changed_at[m] = clock;
        }
        let clock = self.clock;
        self.memo_clean_at[m] = clock;
        self.pop_tracking();
    }

    /// Reads the cached value of a resolved memo: the memo must be clean,
    /// which a driver establishes by resolving (and, when asked, running)
    /// it first. If a subscriber is currently executing it is added to the
    /// memo's subscriber set.
    pub fn memo_read(&mut self, m: usize) -> (v: u64)
        requires
            old(self).wf(),
            m < old(self).n_memos(),
            old(self).memo_states@[m as int] == DirtyState::Clean,
            old(self).memo_values@[m as int] is Some,
        ensures
            final(self).wf(),
            v == old(self).memo_values@[m as int].unwrap(),
            *final(self) == (Runtime {
                sig_subs: final(self).sig_subs,
                memo_subs: final(self).memo_subs,
                memo_sources: final(self).memo_sources,
                effect_sources: final(self).effect_sources,
                ..*old(self)
            }),
            read_registered(*old(self), *final(self), SourceId::Memo(m)),
    {
        let v = self.memo_values[m].unwrap();
        self.register_read(SourceId::Memo(m));
        v
    }
}

/// The memo equality short-circuit, end to end: when a recomputation of
/// memo `m` commits a value equal to its previous one — which, by
/// [`Runtime::memo_finish_run`], leaves the clock and every changed-stamp
/// alone — any dependent whose sources are memos that were each either
/// settled-and-unchanged since `since`, or `m` itself with its last real
/// change at or before `since`, still finds all its sources unchanged. By
/// the contracts of [`Runtime::memo_resolve`] and
/// [`Runtime::effect_resolve`], such a dependent in `Check` then resolves
/// to up-to-date or skip: it does not recompute and its closure does not
/// re-run.
pub proof fn lemma_equal_value_short_circuit(
    pre: Runtime,
    post: Runtime,
    m: usize,
    value: u64,
    sources: Seq<SourceId>,
    since: u64,
)
    requires
        pre.wf(),
        m < pre.n_memos(),
        pre.memo_values@[m as int] == Some(value),
        post.memo_values@ == pre.memo_values@.update(m as int, Some(value)),
        post.memo_states@ == pre.memo_states@.update(m as int, DirtyState::Clean),
        post.memo_changed_at == pre.memo_changed_at,
        pre.memo_changed_at@[m as int] <= since,
        forall|i: int| 0 <= i < sources.len() ==> match #[trigger] sources[i] {
            SourceId::Signal(s) => false,
            SourceId::Memo(m2) => m2 < pre.n_memos() && (m2 == m || {
                &&& pre.memo_states@[m2 as int] == DirtyState::Clean
                &&& pre.memo_values@[m2 as int] is Some
                &&& pre.memo_changed_at@[m2 as int] <= since
            }),
        },
    ensures
        sources_unchanged(post, sources, since),
{
    assert forall|i: int| 0 <= i < sources.len() implies match #[trigger] sources[i] {
        SourceId::Signal(s) => false,
        SourceId::Memo(m2) => {
            &&& post.memo_states@[m2 as int] == DirtyState::Clean
            &&& post.memo_values@[m2 as int] is Some
            &&& post.memo_changed_at@[m2 as int] <= since
        },
    } by {
        match sources[i] {
            SourceId::Signal(_) => {}
            SourceId::Memo(m2) => {
                assert(m2 < pre.n_memos());
                if m2 == m {
                    assert(post.memo_states@[m2 as int] == DirtyState::Clean);
                    assert(post.memo_values@[m2 as int] == Some(value));
                } else {
                    assert(post.memo_states@[m2 as int] == pre.memo_states@[m2 as int]);
                    assert(post.memo_values@[m2 as int] == pre.memo_values@[m2 as int]);
                }
            }
        }
    }
}

} // verus!
