//! Signals: directly mutable leaf state cells, and the scoped guards that
//! mediate reading and writing them.
//!
//! A read guard is a scoped view of a signal's value; tracking registration
//! is a property of the *read operation* that produces the guard, not of
//! the guard object. A write guard is a scoped exclusive accessor: nothing
//! is marked while it is held, and releasing it commits the value first and
//! then notifies the signal's subscribers exactly once — so a dependent
//! that re-reads during notification always sees the fully updated value,
//! never a half-written one. An untracked write guard commits without any
//! notification.

use vstd::prelude::*;

use crate::graph::SourceId;
use crate::runtime::Runtime;
use crate::runtime::notify_pass;
use crate::runtime::read_registered;

verus! {

/// A scoped view of a signal's value, produced by a read operation.
#[derive(Copy, Clone, Debug)]
pub struct SignalReadGuard {
    /// The value the signal held when the guard was produced.
    pub value: u64,
}

impl SignalReadGuard {
    /// The value observed by the read that produced this guard.
    pub fn get(&self) -> (v: u64)
        ensures
            v == self.value,
    {
        self.value
    }
}

/// A scoped exclusive accessor for a signal's value. Mutations accumulate
/// in the guard; [`Runtime::release_write`] commits them and then notifies
/// the signal's subscribers, always in that order.
#[derive(Copy, Clone, Debug)]
pub struct SignalWriteGuard {
    /// The signal this guard writes back to.
    pub signal: usize,
    /// The pending value, committed on release.
    pub value: u64,
}

impl SignalWriteGuard {
    /// Makes a write guard for `signal` whose pending value starts at
    /// `value`.
    pub fn new(signal: usize, value: u64) -> (g: SignalWriteGuard)
        ensures
            g.signal == signal,
            g.value == value,
    {
        SignalWriteGuard { signal, value }
    }

    /// The pending value.
    pub fn get(&self) -> (v: u64)
        ensures
            v == self.value,
    {
        self.value
    }

    /// Replaces the pending value.
    pub fn set(&mut self, value: u64)
        ensures
            final(self).signal == old(self).signal,
            final(self).value == value,
    {
        self.value = value;
    }
}

/// A scoped exclusive accessor whose release commits the value but
/// performs no notification at all.
#[derive(Copy, Clone, Debug)]
pub struct SignalUntrackedWriteGuard {
    /// The signal this guard writes back to.
    pub signal: usize,
    /// The pending value, committed on release.
    pub value: u64,
}

impl SignalUntrackedWriteGuard {
    /// Makes an untracked write guard for `signal` whose pending value
    /// starts at `value`.
    pub fn new(signal: usize, value: u64) -> (g: SignalUntrackedWriteGuard)
        ensures
            g.signal == signal,
            g.value == value,
    {
        SignalUntrackedWriteGuard { signal, value }
    }

    /// The pending value.
    pub fn get(&self) -> (v: u64)
        ensures
            v == self.value,
    {
        self.value
    }

    /// Replaces the pending value.
    pub fn set(&mut self, value: u64)
        ensures
            final(self).signal == old(self).signal,
            final(self).value == value,
    {
        self.value = value;
    }
}

impl Runtime {
    /// Tracked read of signal `s`: if a subscriber is currently executing
    /// it is added to the signal's subscriber set, then the current value
    /// is returned. Reading never fails and never changes any value.
    pub fn read(&mut self, s: usize) -> (g: SignalReadGuard)
        requires
            old(self).wf(),
            s < old(self).n_signals(),
        ensures
            final(self).wf(),
            g.value == old(self).sig_values@[s as int],
            *final(self) == (Runtime {
                sig_subs: final(self).sig_subs,
                memo_subs: final(self).memo_subs,
                memo_sources: final(self).memo_sources,
                effect_sources: final(self).effect_sources,
                ..*old(self)
            }),
            read_registered(*old(self), *final(self), SourceId::Signal(s)),
    {
        let value = self.sig_values[s];
        self.register_read(SourceId::Signal(s));
        SignalReadGuard { value }
    }

    /// Untracked read of signal `s`: returns the current value without
    /// registering any dependency edge, even inside a tracking scope.
    pub fn read_untracked(&self, s: usize) -> (g: SignalReadGuard)
        requires
            self.wf(),
            s < self.n_signals(),
        ensures
            g.value == self.sig_values@[s as int],
    {
        SignalReadGuard { value: self.sig_values[s] }
    }

    /// Starts a write of signal `s`: returns a write guard whose pending
    /// value is the current one. Acquiring the guard marks nothing;
    /// marking happens on release.
    pub fn write(&self, s: usize) -> (g: SignalWriteGuard)
        requires
            self.wf(),
            s < self.n_signals(),
        ensures
            g.signal == s,
            g.value == self.sig_values@[s as int],
    {
        SignalWriteGuard { signal: s, value: self.sig_values[s] }
    }

    /// Starts an untracked write of signal `s`: the guard's release will
    /// commit the value and notify nobody.
    pub fn write_untracked(&self, s: usize) -> (g: SignalUntrackedWriteGuard)
        requires
            self.wf(),
            s < self.n_signals(),
        ensures
            g.signal == s,
            g.value == self.sig_values@[s as int],
    {
        SignalUntrackedWriteGuard { signal: s, value: self.sig_values[s] }
    }

    /// Releases a write guard: commits the pending value to the signal
    /// first, and only then runs one notification pass over the signal's
    /// subscribers. Notification is unconditional — a plain signal notifies
    /// on every release, even when the new value equals the old one; the
    /// equality short-circuit belongs to memos, not signals.
    ///
    /// Together with [`Runtime::read`] this is read-after-write: after the
    /// release, the signal's value is exactly the guard's value, and any
    /// later read returns it.
    pub fn release_write(&mut self, g: SignalWriteGuard)
        requires
            old(self).wf(),
            g.signal < old(self).n_signals(),
        ensures
            final(self).wf(),
            *final(self) == (Runtime {
                sig_values: final(self).sig_values,
                sig_subs: final(self).sig_subs,
                memo_subs: final(self).memo_subs,
                memo_states: final(self).memo_states,
                effect_states: final(self).effect_states,
                scheduled: final(self).scheduled,
                ..*old(self)
            }),
            final(self).sig_values@ == old(self).sig_values@.update(g.signal as int, g.value),
            final(self).sig_values@[g.signal as int] == g.value,
            notify_pass(*old(self), *final(self), g.signal as int),
    {
        self.sig_values[g.signal] = g.value;
        self.mark_signal_dirty(g.signal);
    }

    /// Releases an untracked write guard: commits the pending value and
    /// performs no notification of any kind.
    pub fn release_write_untracked(&mut self, g: SignalUntrackedWriteGuard)
        requires
            old(self).wf(),
            g.signal < old(self).n_signals(),
        ensures
            final(self).wf(),
            *final(self) == (Runtime { sig_values: final(self).sig_values, ..*old(self) }),
            final(self).sig_values@ == old(self).sig_values@.update(g.signal as int, g.value),
    {
        self.sig_values[g.signal] = g.value;
    }

    /// Tracked convenience read: the current value of signal `s`.
    pub fn get_value(&mut self, s: usize) -> (v: u64)
        requires
            old(self).wf(),
            s < old(self).n_signals(),
        ensures
            final(self).wf(),
            v == old(self).sig_values@[s as int],
            *final(self) == (Runtime {
                sig_subs: final(self).sig_subs,
                memo_subs: final(self).memo_subs,
                memo_sources: final(self).memo_sources,
                effect_sources: final(self).effect_sources,
                ..*old(self)
            }),
            read_registered(*old(self), *final(self), SourceId::Signal(s)),
    {
        let g = self.read(s);
        g.get()
    }

    /// Stores `value` into signal `s` and notifies its subscribers, as one
    /// write-guard acquisition and release.
    pub fn set_value(&mut self, s: usize, value: u64)
        requires
            old(self).wf(),
            s < old(self).n_signals(),
        ensures
            final(self).wf(),
            *final(self) == (Runtime {
                sig_values: final(self).sig_values,
                sig_subs: final(self).sig_subs,
                memo_subs: final(self).memo_subs,
                memo_states: final(self).memo_states,
                effect_states: final(self).effect_states,
                scheduled: final(self).scheduled,
                ..*old(self)
            }),
            final(self).sig_values@ == old(self).sig_values@.update(s as int, value),
            final(self).sig_values@[s as int] == value,
            notify_pass(*old(self), *final(self), s as int),
    {
        let mut g = self.write(s);
        g.set(value);
        self.release_write(g);
    }

    /// Applies `f` to the current value of signal `s`, stores the result,
    /// and notifies the signal's subscribers once, on commit.
    pub fn update<F: Fn(u64) -> u64>(&mut self, s: usize, f: F)
        requires
            old(self).wf(),
            s < old(self).n_signals(),
            call_requires(f, (old(self).sig_values@[s as int],)),
        ensures
            final(self).wf(),
            *final(self) == (Runtime {
                sig_values: final(self).sig_values,
                sig_subs: final(self).sig_subs,
                memo_subs: final(self).memo_subs,
                memo_states: final(self).memo_states,
                effect_states: final(self).effect_states,
                scheduled: final(self).scheduled,
                ..*old(self)
            }),
            call_ensures(f, (old(self).sig_values@[s as int],),
                final(self).sig_values@[s as int]),
            final(self).sig_values@ == old(self).sig_values@.update(
                s as int, final(self).sig_values@[s as int]),
            notify_pass(*old(self), *final(self), s as int),
    {
        let mut g = self.write(s);
        let v = f(g.get());
        g.set(v);
        self.release_write(g);
    }

    /// Applies `f` to the current value of signal `s` and stores the
    /// result without notifying anyone.
    pub fn update_untracked<F: Fn(u64) -> u64>(&mut self, s: usize, f: F)
        requires
            old(self).wf(),
            s < old(self).n_signals(),
            call_requires(f, (old(self).sig_values@[s as int],)),
        ensures
            final(self).wf(),
            *final(self) == (Runtime { sig_values: final(self).sig_values, ..*old(self) }),
            call_ensures(f, (old(self).sig_values@[s as int],),
                final(self).sig_values@[s as int]),
            final(self).sig_values@ == old(self).sig_values@.update(
                s as int, final(self).sig_values@[s as int]),
    {
        let mut g = self.write_untracked(s);
        let v = f(g.get());
        g.set(v);
        self.release_write_untracked(g);
    }

    /// Tracked read of signal `s` through `f`: returns `f` applied to the
    /// current value.
    pub fn with<F: Fn(u64) -> u64>(&mut self, s: usize, f: F) -> (r: u64)
        requires
            old(self).wf(),
            s < old(self).n_signals(),
            call_requires(f, (old(self).sig_values@[s as int],)),
        ensures
            final(self).wf(),
            call_ensures(f, (old(self).sig_values@[s as int],), r),
            *final(self) == (Runtime {
                sig_subs: final(self).sig_subs,
                memo_subs: final(self).memo_subs,
                memo_sources: final(self).memo_sources,
                effect_sources: final(self).effect_sources,
                ..*old(self)
            }),
            read_registered(*old(self), *final(self), SourceId::Signal(s)),
    {
        let g = self.read(s);
        f(g.get())
    }

    /// Untracked read of signal `s` through `f`: returns `f` applied to
    /// the current value, registering no dependency edge.
    pub fn with_untracked<F: Fn(u64) -> u64>(&self, s: usize, f: F) -> (r: u64)
        requires
            self.wf(),
            s < self.n_signals(),
            call_requires(f, (self.sig_values@[s as int],)),
        ensures
            call_ensures(f, (self.sig_values@[s as int],), r),
    {
        let g = self.read_untracked(s);
        f(g.get())
    }
}

} // verus!
