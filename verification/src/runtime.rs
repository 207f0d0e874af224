//! The reactive runtime: an arena that owns every signal, memo and effect,
//! the edges between them, the process-wide tracking context, and the queue
//! of effects that have been handed to the external notifier.
//!
//! Nodes are addressed by index; a node's index is its stable identity. The
//! runtime holds no closures: it decides *which* memo must be recomputed or
//! *which* effect must re-run, and the caller (the driver) executes the
//! derivation or effect closure and reports the result back. This keeps the
//! invalidation protocol — the hard part — fully self-contained, while the
//! scheduling/executor collaborator stays pluggable, as it must.

use vstd::prelude::*;

use crate::graph::DirtyState;
use crate::graph::SourceId;
use crate::graph::SubscriberId;
use crate::graph::insert_src;
use crate::graph::insert_sub;
use crate::graph::remove_sub;

verus! {

/// The reactive dependency graph and its ambient state.
///
/// Fields are public so that specifications can speak about them directly;
/// mutate the graph only through the methods, which preserve
/// [`Runtime::wf`].
pub struct Runtime {
    /// Current value of each signal.
    pub sig_values: Vec<u64>,
    /// Subscriber set of each signal: ordered, deduplicated, non-owning.
    pub sig_subs: Vec<Vec<SubscriberId>>,
    /// Last computed value of each memo; `None` until its first run.
    pub memo_values: Vec<Option<u64>>,
    /// Dirty state of each memo.
    pub memo_states: Vec<DirtyState>,
    /// Sources each memo read during its last run, in read order;
    /// replaced wholesale on every recomputation.
    pub memo_sources: Vec<Vec<SourceId>>,
    /// Subscriber set of each memo (memos are sources to their dependents).
    pub memo_subs: Vec<Vec<SubscriberId>>,
    /// Logical time at which each memo last became `Clean`.
    pub memo_clean_at: Vec<u64>,
    /// Logical time at which each memo last changed its value.
    pub memo_changed_at: Vec<u64>,
    /// Dirty state of each effect.
    pub effect_states: Vec<DirtyState>,
    /// Sources each effect read during its last run, in read order.
    pub effect_sources: Vec<Vec<SourceId>>,
    /// Whether each effect's owning scope has disposed it.
    pub effect_disposed: Vec<bool>,
    /// Logical time at which each effect last finished a run.
    pub effect_clean_at: Vec<u64>,
    /// Effects handed to the external notifier and not yet taken by it.
    pub scheduled: Vec<usize>,
    /// The currently executing subscriber, if any: reads of sources
    /// auto-register an edge to it.
    pub tracking: Option<SubscriberId>,
    /// Saved tracking contexts of enclosing runs, restored on exit.
    pub track_stack: Vec<Option<SubscriberId>>,
    /// Logical clock: advances whenever a memo's value actually changes,
    /// so "changed since last seen" is a comparison of timestamps.
    pub clock: u64,
}

impl Runtime {
    /// Number of signals ever created.
    pub open spec fn n_signals(self) -> int {
        self.sig_values@.len() as int
    }

    /// Number of memos ever created.
    pub open spec fn n_memos(self) -> int {
        self.memo_values@.len() as int
    }

    /// Number of effects ever created.
    pub open spec fn n_effects(self) -> int {
        self.effect_states@.len() as int
    }

    /// A subscriber handle names a node that exists.
    pub open spec fn sub_in_bounds(self, sub: SubscriberId) -> bool {
        match sub {
            SubscriberId::Memo(m) => m < self.n_memos(),
            SubscriberId::Effect(e) => e < self.n_effects(),
        }
    }

    /// A source handle names a node that exists.
    pub open spec fn src_in_bounds(self, src: SourceId) -> bool {
        match src {
            SourceId::Signal(s) => s < self.n_signals(),
            SourceId::Memo(m) => m < self.n_memos(),
        }
    }

    /// A subscriber set is deduplicated and names existing nodes.
    pub open spec fn subs_ok(self, v: Seq<SubscriberId>) -> bool {
        &&& v.no_duplicates()
        &&& forall|k: int| 0 <= k < v.len() ==> self.sub_in_bounds(#[trigger] v[k])
    }

    /// A source list is deduplicated and names existing nodes.
    pub open spec fn srcs_ok(self, v: Seq<SourceId>) -> bool {
        &&& v.no_duplicates()
        &&& forall|k: int| 0 <= k < v.len() ==> self.src_in_bounds(#[trigger] v[k])
    }

    /// The subscriber set of a source node.
    pub open spec fn subs_of(self, src: SourceId) -> Seq<SubscriberId> {
        match src {
            SourceId::Signal(s) => self.sig_subs@[s as int]@,
            SourceId::Memo(m) => self.memo_subs@[m as int]@,
        }
    }

    /// The remembered source list of a subscriber node.
    pub open spec fn sources_of(self, sub: SubscriberId) -> Seq<SourceId> {
        match sub {
            SubscriberId::Memo(m) => self.memo_sources@[m as int]@,
            SubscriberId::Effect(e) => self.effect_sources@[e as int]@,
        }
    }

    /// Well-formedness of the whole graph: the arenas agree on node counts,
    /// every stored edge names an existing node, edge collections are
    /// deduplicated, timestamps never run ahead of the clock, and the
    /// tracking context only names existing nodes.
    pub open spec fn wf(self) -> bool {
        &&& self.sig_subs@.len() == self.n_signals()
        &&& self.memo_states@.len() == self.n_memos()
        &&& self.memo_sources@.len() == self.n_memos()
        &&& self.memo_subs@.len() == self.n_memos()
        &&& self.memo_clean_at@.len() == self.n_memos()
        &&& self.memo_changed_at@.len() == self.n_memos()
        &&& self.effect_sources@.len() == self.n_effects()
        &&& self.effect_disposed@.len() == self.n_effects()
        &&& self.effect_clean_at@.len() == self.n_effects()
        &&& forall|s: int| 0 <= s < self.n_signals() ==> self.subs_ok(#[trigger] self.sig_subs@[s]@)
        &&& forall|m: int| 0 <= m < self.n_memos() ==> self.subs_ok(#[trigger] self.memo_subs@[m]@)
        &&& forall|m: int| 0 <= m < self.n_memos() ==> self.srcs_ok(#[trigger] self.memo_sources@[m]@)
        &&& forall|e: int| 0 <= e < self.n_effects() ==> self.srcs_ok(#[trigger] self.effect_sources@[e]@)
        &&& forall|k: int| 0 <= k < self.scheduled@.len() ==> (#[trigger] self.scheduled@[k]) < self.n_effects()
        &&& forall|m: int| 0 <= m < self.n_memos() ==> (#[trigger] self.memo_clean_at@[m]) <= self.clock
        &&& forall|m: int| 0 <= m < self.n_memos() ==> (#[trigger] self.memo_changed_at@[m]) <= self.clock
        &&& forall|e: int| 0 <= e < self.n_effects() ==> (#[trigger] self.effect_clean_at@[e]) <= self.clock
        &&& match self.tracking {
                Some(sub) => self.sub_in_bounds(sub),
                None => true,
            }
        &&& forall|k: int| 0 <= k < self.track_stack@.len() ==> match #[trigger] self.track_stack@[k] {
                Some(sub) => self.sub_in_bounds(sub),
                None => true,
            }
    }

    /// Creates an empty runtime: no nodes, no tracking, time zero.
    pub fn new() -> (rt: Runtime)
        ensures
            rt.wf(),
            rt.n_signals() == 0,
            rt.n_memos() == 0,
            rt.n_effects() == 0,
            rt.scheduled@.len() == 0,
            rt.tracking is None,
            rt.track_stack@.len() == 0,
            rt.clock == 0,
    {
        Runtime {
            sig_values: Vec::new(),
            sig_subs: Vec::new(),
            memo_values: Vec::new(),
            memo_states: Vec::new(),
            memo_sources: Vec::new(),
            memo_subs: Vec::new(),
            memo_clean_at: Vec::new(),
            memo_changed_at: Vec::new(),
            effect_states: Vec::new(),
            effect_sources: Vec::new(),
            effect_disposed: Vec::new(),
            effect_clean_at: Vec::new(),
            scheduled: Vec::new(),
            tracking: None,
            track_stack: Vec::new(),
            clock: 0,
        }
    }

    /// Creates a signal holding `value` and returns its identity.
    pub fn create_signal(&mut self, value: u64) -> (id: usize)
        requires
            old(self).wf(),
        ensures
            final(self).wf(),
            id == old(self).n_signals(),
            final(self).n_signals() == old(self).n_signals() + 1,
            final(self).sig_values@ == old(self).sig_values@.push(value),
            final(self).sig_subs@[id as int]@ =~= Seq::<SubscriberId>::empty(),
            forall|s: int| 0 <= s < old(self).n_signals() ==>
                #[trigger] final(self).sig_subs@[s] == old(self).sig_subs@[s],
            final(self).memo_values == old(self).memo_values,
            final(self).memo_states == old(self).memo_states,
            final(self).memo_sources == old(self).memo_sources,
            final(self).memo_subs == old(self).memo_subs,
            final(self).memo_clean_at == old(self).memo_clean_at,
            final(self).memo_changed_at == old(self).memo_changed_at,
            final(self).effect_states == old(self).effect_states,
            final(self).effect_sources == old(self).effect_sources,
            final(self).effect_disposed == old(self).effect_disposed,
            final(self).effect_clean_at == old(self).effect_clean_at,
            final(self).scheduled == old(self).scheduled,
            final(self).tracking == old(self).tracking,
            final(self).track_stack == old(self).track_stack,
            final(self).clock == old(self).clock,
    {
        let id = self.sig_values.len();
        self.sig_values.push(value);
        self.sig_subs.push(Vec::new());
        id
    }

    /// Creates a memo and returns its identity. A memo starts `Dirty` with
    /// no value: it is treated as stale until its first read forces a run.
    pub fn create_memo(&mut self) -> (id: usize)
        requires
            old(self).wf(),
        ensures
            final(self).wf(),
            id == old(self).n_memos(),
            final(self).n_memos() == old(self).n_memos() + 1,
            final(self).memo_values@ == old(self).memo_values@.push(None),
            final(self).memo_states@ == old(self).memo_states@.push(DirtyState::Dirty),
            final(self).memo_sources@[id as int]@ =~= Seq::<SourceId>::empty(),
            final(self).memo_subs@[id as int]@ =~= Seq::<SubscriberId>::empty(),
            forall|m: int| 0 <= m < old(self).n_memos() ==>
                #[trigger] final(self).memo_sources@[m] == old(self).memo_sources@[m],
            forall|m: int| 0 <= m < old(self).n_memos() ==>
                #[trigger] final(self).memo_subs@[m] == old(self).memo_subs@[m],
            final(self).memo_clean_at@ == old(self).memo_clean_at@.push(0u64),
            final(self).memo_changed_at@ == old(self).memo_changed_at@.push(0u64),
            final(self).sig_values == old(self).sig_values,
            final(self).sig_subs == old(self).sig_subs,
            final(self).effect_states == old(self).effect_states,
            final(self).effect_sources == old(self).effect_sources,
            final(self).effect_disposed == old(self).effect_disposed,
            final(self).effect_clean_at == old(self).effect_clean_at,
            final(self).scheduled == old(self).scheduled,
            final(self).tracking == old(self).tracking,
            final(self).track_stack == old(self).track_stack,
            final(self).clock == old(self).clock,
    {
        let id = self.memo_values.len();
        self.memo_values.push(None);
        self.memo_states.push(DirtyState::Dirty);
        self.memo_sources.push(Vec::new());
        self.memo_subs.push(Vec::new());
        self.memo_clean_at.push(0);
        self.memo_changed_at.push(0);
        id
    }

    /// Creates an effect and returns its identity. An effect starts `Dirty`
    /// and is scheduled at once, so it runs once immediately to establish
    /// its initial dependency set.
    pub fn create_effect(&mut self) -> (id: usize)
        requires
            old(self).wf(),
        ensures
            final(self).wf(),
            id == old(self).n_effects(),
            final(self).n_effects() == old(self).n_effects() + 1,
            final(self).effect_states@ == old(self).effect_states@.push(DirtyState::Dirty),
            final(self).effect_sources@[id as int]@ =~= Seq::<SourceId>::empty(),
            forall|e: int| 0 <= e < old(self).n_effects() ==>
                #[trigger] final(self).effect_sources@[e] == old(self).effect_sources@[e],
            final(self).effect_disposed@ == old(self).effect_disposed@.push(false),
            final(self).effect_clean_at@ == old(self).effect_clean_at@.push(0u64),
            final(self).scheduled@ == old(self).scheduled@.push(id),
            final(self).sig_values == old(self).sig_values,
            final(self).sig_subs == old(self).sig_subs,
            final(self).memo_values == old(self).memo_values,
            final(self).memo_states == old(self).memo_states,
            final(self).memo_sources == old(self).memo_sources,
            final(self).memo_subs == old(self).memo_subs,
            final(self).memo_clean_at == old(self).memo_clean_at,
            final(self).memo_changed_at == old(self).memo_changed_at,
            final(self).tracking == old(self).tracking,
            final(self).track_stack == old(self).track_stack,
            final(self).clock == old(self).clock,
    {
        let id = self.effect_states.len();
        self.effect_states.push(DirtyState::Dirty);
        self.effect_sources.push(Vec::new());
        self.effect_disposed.push(false);
        self.effect_clean_at.push(0);
        self.scheduled.push(id);
        id
    }

    /// Hands the queue of scheduled effects to the notifier: returns every
    /// effect scheduled so far, in scheduling order, and empties the queue.
    pub fn take_scheduled(&mut self) -> (r: Vec<usize>)
        requires
            old(self).wf(),
        ensures
            final(self).wf(),
            r@ == old(self).scheduled@,
            final(self).scheduled@ =~= Seq::<usize>::empty(),
            forall|k: int| 0 <= k < r@.len() ==> (#[trigger] r@[k]) < final(self).n_effects(),
            *final(self) == (Runtime { scheduled: final(self).scheduled, ..*old(self) }),
    {
        let mut r: Vec<usize> = Vec::new();
        core::mem::swap(&mut r, &mut self.scheduled);
        r
    }

    /// Enters a tracking scope: saves the current tracking context and makes
    /// `sub` the currently executing subscriber, so that its reads register
    /// dependency edges back to it.
    pub(crate) fn push_tracking(&mut self, sub: SubscriberId)
        requires
            old(self).wf(),
            old(self).sub_in_bounds(sub),
        ensures
            final(self).wf(),
            final(self).tracking == Some(sub),
            final(self).track_stack@ == old(self).track_stack@.push(old(self).tracking),
            *final(self) == (Runtime {
                tracking: final(self).tracking,
                track_stack: final(self).track_stack,
                ..*old(self)
            }),
    {
        let prev = self.tracking;
        self.track_stack.push(prev);
        self.tracking = Some(sub);
    }

    /// Leaves a tracking scope: restores the tracking context saved by the
    /// matching [`Runtime::push_tracking`]. Restoration must happen on every
    /// exit path of a run, which is why the runtime keeps the stack itself.
    pub(crate) fn pop_tracking(&mut self)
        requires
            old(self).wf(),
            old(self).track_stack@.len() > 0,
        ensures
            final(self).wf(),
            final(self).tracking == old(self).track_stack@.last(),
            final(self).track_stack@ == old(self).track_stack@.drop_last(),
            *final(self) == (Runtime {
                tracking: final(self).tracking,
                track_stack: final(self).track_stack,
                ..*old(self)
            }),
    {
        let prev = self.track_stack.pop().unwrap();
        self.tracking = prev;
    }

    /// Registers the read of `src` with the tracking context: if a
    /// subscriber is currently executing, it is added to `src`'s subscriber
    /// set and `src` is added to its remembered sources. Outside any
    /// tracking scope this registers nothing.
    pub(crate) fn register_read(&mut self, src: SourceId)
        requires
            old(self).wf(),
            old(self).src_in_bounds(src),
        ensures
            final(self).wf(),
            *final(self) == (Runtime {
                sig_subs: final(self).sig_subs,
                memo_subs: final(self).memo_subs,
                memo_sources: final(self).memo_sources,
                effect_sources: final(self).effect_sources,
                ..*old(self)
            }),
            read_registered(*old(self), *final(self), src),
    {
        match self.tracking {
            None => {}
            Some(sub) => {
                match src {
                    SourceId::Signal(s) => insert_sub(&mut self.sig_subs[s], sub),
                    SourceId::Memo(m) => insert_sub(&mut self.memo_subs[m], sub),
                }
                match sub {
                    SubscriberId::Memo(m) => insert_src(&mut self.memo_sources[m], src),
                    SubscriberId::Effect(e) => insert_src(&mut self.effect_sources[e], src),
                }
            }
        }
    }

    /// Removes `sub` from the subscriber set of every source. Used before a
    /// subscriber re-runs (so stale conditional dependencies are dropped and
    /// the set is rebuilt from scratch during the run) and on disposal.
    pub(crate) fn unsubscribe_everywhere(&mut self, sub: SubscriberId)
        requires
            old(self).wf(),
        ensures
            final(self).wf(),
            *final(self) == (Runtime {
                sig_subs: final(self).sig_subs,
                memo_subs: final(self).memo_subs,
                ..*old(self)
            }),
            forall|s: int| 0 <= s < old(self).n_signals() ==>
                !(#[trigger] final(self).sig_subs@[s]@).contains(sub),
            forall|m: int| 0 <= m < old(self).n_memos() ==>
                !(#[trigger] final(self).memo_subs@[m]@).contains(sub),
            forall|s: int, y: SubscriberId| 0 <= s < old(self).n_signals() && y != sub ==>
                ((#[trigger] final(self).sig_subs@[s]@.contains(y)) <==> old(self).sig_subs@[s]@.contains(y)),
            forall|m: int, y: SubscriberId| 0 <= m < old(self).n_memos() && y != sub ==>
                ((#[trigger] final(self).memo_subs@[m]@.contains(y)) <==> old(self).memo_subs@[m]@.contains(y)),
    {
        let mut subs: Vec<Vec<SubscriberId>> = Vec::new();
        core::mem::swap(&mut subs, &mut self.sig_subs);
        let n = subs.len();
        let mut i: usize = 0;
        while i < n
            invariant
                i <= n,
                n == subs.len(),
                old(self).wf(),
                n == old(self).n_signals(),
                forall|j: int| i <= j < n ==> subs@[j] == old(self).sig_subs@[j],
                forall|j: int| 0 <= j < i ==> !(#[trigger] subs@[j]@).contains(sub),
                forall|j: int, y: SubscriberId| 0 <= j < i && y != sub ==>
                    ((#[trigger] subs@[j]@.contains(y)) <==> old(self).sig_subs@[j]@.contains(y)),
                forall|j: int| 0 <= j < i ==> old(self).subs_ok(#[trigger] subs@[j]@),
            decreases n - i,
        {
            proof {
                assert(old(self).subs_ok(subs@[i as int]@));
            }
            remove_sub(&mut subs[i], sub);
            proof {
                assert forall|k: int| 0 <= k < subs@[i as int]@.len() implies
                    old(self).sub_in_bounds(#[trigger] subs@[i as int]@[k]) by {
                    let y = subs@[i as int]@[k];
                    assert(subs@[i as int]@.contains(y));
                    assert(y != sub);
                    assert(old(self).sig_subs@[i as int]@.contains(y));
                    let j = choose|j: int| 0 <= j < old(self).sig_subs@[i as int]@.len()
                        && old(self).sig_subs@[i as int]@[j] == y;
                    assert(old(self).sub_in_bounds(old(self).sig_subs@[i as int]@[j]));
                }
            }
            i = i + 1;
        }
        core::mem::swap(&mut subs, &mut self.sig_subs);
        let mut msubs: Vec<Vec<SubscriberId>> = Vec::new();
        core::mem::swap(&mut msubs, &mut self.memo_subs);
        let nm = msubs.len();
        let mut j: usize = 0;
        while j < nm
            invariant
                j <= nm,
                nm == msubs.len(),
                old(self).wf(),
                nm == old(self).n_memos(),
                forall|k: int| j <= k < nm ==> msubs@[k] == old(self).memo_subs@[k],
                forall|k: int| 0 <= k < j ==> !(#[trigger] msubs@[k]@).contains(sub),
                forall|k: int, y: SubscriberId| 0 <= k < j && y != sub ==>
                    ((#[trigger] msubs@[k]@.contains(y)) <==> old(self).memo_subs@[k]@.contains(y)),
                forall|k: int| 0 <= k < j ==> old(self).subs_ok(#[trigger] msubs@[k]@),
            decreases nm - j,
        {
            proof {
                assert(old(self).subs_ok(msubs@[j as int]@));
            }
            remove_sub(&mut msubs[j], sub);
            proof {
                assert forall|k: int| 0 <= k < msubs@[j as int]@.len() implies
                    old(self).sub_in_bounds(#[trigger] msubs@[j as int]@[k]) by {
                    let y = msubs@[j as int]@[k];
                    assert(msubs@[j as int]@.contains(y));
                    assert(y != sub);
                    assert(old(self).memo_subs@[j as int]@.contains(y));
                    let jj = choose|jj: int| 0 <= jj < old(self).memo_subs@[j as int]@.len()
                        && old(self).memo_subs@[j as int]@[jj] == y;
                    assert(old(self).sub_in_bounds(old(self).memo_subs@[j as int]@[jj]));
                }
            }
            j = j + 1;
        }
        core::mem::swap(&mut msubs, &mut self.memo_subs);
    }

    /// The notification pass run when a write to signal `s` commits: drains
    /// the signal's subscriber set and marks everything it reaches with
    /// `Check`, transitively. Drained subscribers are processed first to
    /// last — insertion order, each exactly once (the sets are
    /// deduplicated). A memo that was `Clean` flips to `Check` and its own
    /// subscriber set is drained, in order, onto the end of the queue of
    /// pending notifications; one already marked propagates nothing (its
    /// dependents were informed when it flipped). A live effect that was
    /// `Clean` flips to `Check` and is handed to the notifier, so effects
    /// reach the notifier in the order they were notified; a disposed
    /// effect is silently skipped. The pass never touches values, never
    /// runs anything, and never marks a node `Dirty` — deciding between
    /// "really changed" and "unchanged" is deferred to the node's own
    /// re-verification.
    pub fn mark_signal_dirty(&mut self, s: usize)
        requires
            old(self).wf(),
            s < old(self).n_signals(),
        ensures
            final(self).wf(),
            *final(self) == (Runtime {
                sig_subs: final(self).sig_subs,
                memo_subs: final(self).memo_subs,
                memo_states: final(self).memo_states,
                effect_states: final(self).effect_states,
                scheduled: final(self).scheduled,
                ..*old(self)
            }),
            notify_pass(*old(self), *final(self), s as int),
    {
        let mut work = crate::graph::take_subs(&mut self.sig_subs[s]);
        let mut i: usize = 0;
        while i < work.len()
            invariant
                i <= work@.len(),
                self.wf(),
                s < self.n_signals(),
                *self == (Runtime {
                    sig_subs: self.sig_subs,
                    memo_subs: self.memo_subs,
                    memo_states: self.memo_states,
                    effect_states: self.effect_states,
                    scheduled: self.scheduled,
                    ..*old(self)
                }),
                self.sig_subs@[s as int]@.len() == 0,
                forall|t: int| 0 <= t < old(self).n_signals() && t != s ==>
                    #[trigger] self.sig_subs@[t] == old(self).sig_subs@[t],
                forall|m: int| 0 <= m < old(self).n_memos() ==>
                    (#[trigger] self.memo_subs@[m] == old(self).memo_subs@[m]
                        || self.memo_subs@[m]@.len() == 0),
                forall|m: int| 0 <= m < old(self).n_memos() && self.memo_states@[m] == DirtyState::Clean ==>
                    #[trigger] self.memo_subs@[m] == old(self).memo_subs@[m],
                forall|m: int| 0 <= m < old(self).n_memos() ==>
                    (#[trigger] self.memo_states@[m] == old(self).memo_states@[m]
                        || (old(self).memo_states@[m] == DirtyState::Clean
                            && self.memo_states@[m] == DirtyState::Check
                            && notify_origin(*old(self), *self, s as int, SubscriberId::Memo(m as usize)))),
                old(self).wf(),
                forall|e: int| 0 <= e < old(self).n_effects() ==>
                    (#[trigger] self.effect_states@[e] == old(self).effect_states@[e]
                        || (old(self).effect_states@[e] == DirtyState::Clean
                            && self.effect_states@[e] == DirtyState::Check
                            && !old(self).effect_disposed@[e]
                            && self.scheduled@.contains(e as usize)
                            && notify_origin(*old(self), *self, s as int, SubscriberId::Effect(e as usize)))),
                old(self).scheduled@.is_prefix_of(self.scheduled@),
                forall|k: int| old(self).scheduled@.len() <= k < self.scheduled@.len() ==> {
                    let e = #[trigger] self.scheduled@[k];
                    &&& e < old(self).n_effects()
                    &&& !old(self).effect_disposed@[e as int]
                    &&& notify_origin(*old(self), *self, s as int, SubscriberId::Effect(e))
                },
                forall|k: int| 0 <= k < work@.len() ==> old(self).sub_in_bounds(#[trigger] work@[k]),
                forall|k: int| 0 <= k < work@.len() ==>
                    notify_origin(*old(self), *self, s as int, #[trigger] work@[k]),
                forall|k: int| 0 <= k < old(self).sig_subs@[s as int]@.len() ==>
                    ((exists|j: int| i <= j < work@.len()
                            && work@[j] == #[trigger] old(self).sig_subs@[s as int]@[k])
                        || notify_marked(*old(self), *self, old(self).sig_subs@[s as int]@[k])),
                forall|m: int, k: int|
                    0 <= m < old(self).n_memos()
                    && old(self).memo_states@[m] == DirtyState::Clean
                    && self.memo_states@[m] != DirtyState::Clean
                    && 0 <= k < old(self).memo_subs@[m]@.len()
                    ==> ((exists|j: int| i <= j < work@.len()
                            && work@[j] == #[trigger] old(self).memo_subs@[m]@[k])
                        || notify_marked(*old(self), *self, old(self).memo_subs@[m]@[k])),
            decreases crate::graph::count_clean(self.memo_states@), work@.len() - i,
        {
            let ghost work0 = work@;
            let ghost i0 = i as int;
            let ghost self0 = *self;
            let sub = work[i];
            i = i + 1;
            proof {
                assert(old(self).sub_in_bounds(sub));
                assert(self.n_memos() == old(self).n_memos());
                assert(self.n_effects() == old(self).n_effects());
            }
            match sub {
                SubscriberId::Memo(m) => {
                    if self.memo_states[m] == DirtyState::Clean {
                        proof {
                            crate::graph::lemma_count_clean_update(
                                self.memo_states@, m as int, DirtyState::Check);
                        }
                        self.memo_states[m] = DirtyState::Check;
                        let mut drained = crate::graph::take_subs(&mut self.memo_subs[m]);
                        proof {
                            assert(drained@ == old(self).memo_subs@[m as int]@);
                        }
                        let ghost drained0 = drained@;
                        work.append(&mut drained);
                        proof {
                            assert forall|k: int| 0 <= k < old(self).memo_subs@[m as int]@.len() implies
                                exists|j: int| i <= j < work@.len()
                                    && work@[j] == #[trigger] old(self).memo_subs@[m as int]@[k] by {
                                assert(work@[work0.len() + k] == old(self).memo_subs@[m as int]@[k]);
                                assert(i <= work0.len() + k < work@.len());
                            };
                        }
                    }
                }
                SubscriberId::Effect(e) => {
                    if !self.effect_disposed[e] && self.effect_states[e] == DirtyState::Clean {
                        self.effect_states[e] = DirtyState::Check;
                        self.scheduled.push(e);
                        proof {
                            assert(self.scheduled@ == self0.scheduled@.push(e));
                            assert forall|v: usize| self0.scheduled@.contains(v) implies
                                self.scheduled@.contains(v) by {
                                let j = choose|j: int| 0 <= j < self0.scheduled@.len()
                                    && self0.scheduled@[j] == v;
                                assert(self.scheduled@[j] == v);
                            };
                            assert(self.scheduled@[self.scheduled@.len() - 1] == e);
                            assert(self.scheduled@.contains(e));
                        }
                    }
                }
            }
            proof {
                assert(notify_marked(*old(self), *self, sub));
                assert forall|m2: int| 0 <= m2 < old(self).n_memos()
                    && self0.memo_states@[m2] != DirtyState::Clean implies
                    self.memo_states@[m2] != DirtyState::Clean by {};
                assert forall|x: SubscriberId|
                    notify_origin(*old(self), self0, s as int, x) implies
                    notify_origin(*old(self), *self, s as int, x) by {
                    if !old(self).sig_subs@[s as int]@.contains(x) {
                        let m2 = choose|m2: int| 0 <= m2 < old(self).n_memos()
                            && old(self).memo_states@[m2] == DirtyState::Clean
                            && self0.memo_states@[m2] != DirtyState::Clean
                            && old(self).memo_subs@[m2]@.contains(x);
                        assert(self.memo_states@[m2] != DirtyState::Clean);
                    }
                };
                assert forall|x: SubscriberId|
                    (exists|j: int| i0 <= j < work0.len() && work0[j] == x) implies
                    ((exists|j: int| i <= j < work@.len() && work@[j] == x)
                        || notify_marked(*old(self), *self, x)) by {
                    let j = choose|j: int| i0 <= j < work0.len() && work0[j] == x;
                    if j == i0 {
                        assert(x == sub);
                    } else {
                        assert(work@[j] == x);
                        assert(i <= j < work@.len());
                    }
                };
                assert forall|x: SubscriberId|
                    old(self).sub_in_bounds(x) && notify_marked(*old(self), self0, x) implies
                    notify_marked(*old(self), *self, x) by {
                    match x {
                        SubscriberId::Memo(mm) => {
                            assert(self.memo_states@[mm as int] != DirtyState::Clean);
                        }
                        SubscriberId::Effect(ee) => {
                            if !old(self).effect_disposed@[ee as int] {
                                assert(self.effect_states@[ee as int] != DirtyState::Clean);
                                if old(self).effect_states@[ee as int] == DirtyState::Clean {
                                    let j = choose|j: int| 0 <= j < self0.scheduled@.len()
                                        && self0.scheduled@[j] == ee;
                                    assert(self.scheduled@[j] == ee);
                                }
                            }
                        }
                    }
                };
            }
        }
    }
}

/// Everything one notification pass starting at signal `s` guarantees,
/// relating the graph before (`pre`) and after (`post`) the pass. The
/// signal's own subscriber set is drained; other signals' sets are
/// untouched; memo subscriber sets are either untouched or drained; states
/// move only from `Clean` to `Check`, and only for reachable nodes; the
/// notifier queue only grows, by live reachable effects; and every
/// subscriber of the written signal — and, transitively, of every memo the
/// pass marked — is notified as [`notify_marked`] describes.
pub open spec fn notify_pass(pre: Runtime, post: Runtime, s: int) -> bool {
    &&& post.sig_subs@[s]@.len() == 0
    &&& forall|t: int| 0 <= t < pre.n_signals() && t != s ==>
            #[trigger] post.sig_subs@[t] == pre.sig_subs@[t]
    &&& forall|m: int| 0 <= m < pre.n_memos() ==>
            (#[trigger] post.memo_subs@[m] == pre.memo_subs@[m]
                || post.memo_subs@[m]@.len() == 0)
    &&& forall|m: int| 0 <= m < pre.n_memos() ==>
            (#[trigger] post.memo_states@[m] == pre.memo_states@[m]
                || (pre.memo_states@[m] == DirtyState::Clean
                    && post.memo_states@[m] == DirtyState::Check
                    && notify_origin(pre, post, s, SubscriberId::Memo(m as usize))))
    &&& forall|e: int| 0 <= e < pre.n_effects() ==>
            (#[trigger] post.effect_states@[e] == pre.effect_states@[e]
                || (pre.effect_states@[e] == DirtyState::Clean
                    && post.effect_states@[e] == DirtyState::Check
                    && !pre.effect_disposed@[e]
                    && post.scheduled@.contains(e as usize)
                    && notify_origin(pre, post, s, SubscriberId::Effect(e as usize))))
    &&& pre.scheduled@.is_prefix_of(post.scheduled@)
    &&& forall|k: int| pre.scheduled@.len() <= k < post.scheduled@.len() ==> {
            let e = #[trigger] post.scheduled@[k];
            &&& e < pre.n_effects()
            &&& !pre.effect_disposed@[e as int]
            &&& notify_origin(pre, post, s, SubscriberId::Effect(e))
        }
    &&& forall|k: int| 0 <= k < pre.sig_subs@[s]@.len() ==>
            notify_marked(pre, post, #[trigger] pre.sig_subs@[s]@[k])
    &&& forall|m: int, k: int|
            0 <= m < pre.n_memos()
            && pre.memo_states@[m] == DirtyState::Clean
            && post.memo_states@[m] != DirtyState::Clean
            && 0 <= k < pre.memo_subs@[m]@.len()
            ==> notify_marked(pre, post, #[trigger] pre.memo_subs@[m]@[k])
}

/// What registering a read of `src` guarantees, relating the graph before
/// (`pre`) and after (`post`) the registration: outside a tracking scope
/// nothing changes at all; inside one, the current subscriber is appended
/// to `src`'s subscriber set unless already there, `src` is appended to
/// its remembered sources unless already there — keeping both collections
/// in insertion order, deduplicated — and no other set or list changes.
pub open spec fn read_registered(pre: Runtime, post: Runtime, src: SourceId) -> bool {
    &&& pre.tracking is None ==> post == pre
    &&& pre.tracking matches Some(sub) ==> {
            &&& post.subs_of(src).contains(sub)
            &&& forall|y: SubscriberId| #[trigger] post.subs_of(src).contains(y)
                    <==> (pre.subs_of(src).contains(y) || y == sub)
            &&& (pre.subs_of(src).contains(sub) ==> post.subs_of(src) == pre.subs_of(src))
            &&& (!pre.subs_of(src).contains(sub) ==> post.subs_of(src) == pre.subs_of(src).push(sub))
            &&& post.sources_of(sub).contains(src)
            &&& forall|y: SourceId| #[trigger] post.sources_of(sub).contains(y)
                    <==> (pre.sources_of(sub).contains(y) || y == src)
            &&& (pre.sources_of(sub).contains(src) ==> post.sources_of(sub) == pre.sources_of(sub))
            &&& (!pre.sources_of(sub).contains(src) ==> post.sources_of(sub) == pre.sources_of(sub).push(src))
        }
    &&& forall|src2: SourceId| pre.src_in_bounds(src2) && src2 != src ==>
            #[trigger] post.subs_of(src2) == pre.subs_of(src2)
    &&& forall|sub2: SubscriberId| pre.sub_in_bounds(sub2) && pre.tracking != Some(sub2) ==>
            #[trigger] post.sources_of(sub2) == pre.sources_of(sub2)
}

/// Holds when `sub` was reachable by the marking pass that started at
/// signal `s` and took the graph from `pre` to `post`: it sat in the
/// written signal's subscriber set, or in the subscriber set of a memo
/// that this very pass marked (one that was `Clean` before and is not
/// after) — the only memos whose sets the pass drains and follows.
pub open spec fn notify_origin(pre: Runtime, post: Runtime, s: int, sub: SubscriberId) -> bool {
    ||| pre.sig_subs@[s]@.contains(sub)
    ||| exists|m: int| 0 <= m < pre.n_memos()
            && pre.memo_states@[m] == DirtyState::Clean
            && post.memo_states@[m] != DirtyState::Clean
            && (#[trigger] pre.memo_subs@[m]@).contains(sub)
}

/// What one notification guarantees for a notified subscriber, comparing
/// the runtime before (`pre`) and after (`post`) the marking pass: a memo
/// is no longer `Clean`; a live effect is no longer `Clean` and has been
/// handed to the notifier — unless an earlier marking already had, in which
/// case the pending wake-up will observe this change too.
pub open spec fn notify_marked(pre: Runtime, post: Runtime, sub: SubscriberId) -> bool {
    match sub {
        SubscriberId::Memo(m) => post.memo_states@[m as int] != DirtyState::Clean,
        SubscriberId::Effect(e) => pre.effect_disposed@[e as int] || {
            &&& post.effect_states@[e as int] != DirtyState::Clean
            &&& (pre.effect_states@[e as int] != DirtyState::Clean || post.scheduled@.contains(e))
        },
    }
}

/// Disposal safety: a notification pass starting at any signal leaves a
/// disposed effect entirely alone — its state does not move and it is
/// never handed to the notifier — so disposing an effect's owning scope
/// and then writing to a signal it used to depend on cannot make its
/// closure run again.
pub proof fn lemma_disposal_safety(pre: Runtime, post: Runtime, s: int, e: usize)
    requires
        pre.wf(),
        0 <= s < pre.n_signals(),
        e < pre.n_effects(),
        pre.effect_disposed@[e as int],
        notify_pass(pre, post, s),
    ensures
        post.effect_states@[e as int] == pre.effect_states@[e as int],
        forall|k: int| pre.scheduled@.len() <= k < post.scheduled@.len() ==>
            #[trigger] post.scheduled@[k] != e,
{
}

/// Dynamic dependency rebinding: an effect that is subscribed neither to
/// the written signal nor to any clean memo (the only memos a marking
/// pass can flip and follow) takes no part in that signal's notification
/// pass — its state does not move and it is never handed to the notifier.
/// So once an effect's re-run has dropped a signal from its dependency
/// set, writing to that signal no longer re-runs the effect.
pub proof fn lemma_unsubscribed_effect_untouched(pre: Runtime, post: Runtime, s: int, e: usize)
    requires
        pre.wf(),
        0 <= s < pre.n_signals(),
        e < pre.n_effects(),
        !pre.sig_subs@[s]@.contains(SubscriberId::Effect(e)),
        forall|m: int| 0 <= m < pre.n_memos() && pre.memo_states@[m] == DirtyState::Clean ==>
            !(#[trigger] pre.memo_subs@[m]@).contains(SubscriberId::Effect(e)),
        notify_pass(pre, post, s),
    ensures
        post.effect_states@[e as int] == pre.effect_states@[e as int],
        forall|k: int| pre.scheduled@.len() <= k < post.scheduled@.len() ==>
            #[trigger] post.scheduled@[k] != e,
{
    assert(!notify_origin(pre, post, s, SubscriberId::Effect(e)));
}

/// One notification per write, per subscriber: a subscriber sitting in
/// the written signal's set when the write commits is notified by that
/// pass, and — the set being deduplicated — it sat there exactly once, so
/// it is marked exactly once per release. Releases never coalesce: every
/// release runs its own pass, whatever the value.
pub proof fn lemma_notify_once_per_write(pre: Runtime, post: Runtime, s: int, sub: SubscriberId)
    requires
        pre.wf(),
        0 <= s < pre.n_signals(),
        pre.sig_subs@[s]@.contains(sub),
        notify_pass(pre, post, s),
    ensures
        notify_marked(pre, post, sub),
        forall|i: int, j: int|
            0 <= i < pre.sig_subs@[s]@.len() && 0 <= j < pre.sig_subs@[s]@.len()
            && pre.sig_subs@[s]@[i] == sub && pre.sig_subs@[s]@[j] == sub
            ==> i == j,
{
    let k = choose|k: int| 0 <= k < pre.sig_subs@[s]@.len() && pre.sig_subs@[s]@[k] == sub;
    assert(notify_marked(pre, post, pre.sig_subs@[s]@[k]));
    assert(pre.subs_ok(pre.sig_subs@[s]@));
}

} // verus!
